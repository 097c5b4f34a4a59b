use vstd::prelude::*;

use crate::buffer::{grain_totals, Buffer, TotalsRow};
use crate::tally::{lemma_wiki_key_names, wiki_keys, wiki_tally, Counters, RawRow};
use crate::time::{Timestamp, G_DAY, G_HOUR, G_MINUTE};
use crate::wiki::{wiki_deltas, WikiDirectory};

verus! {

/// A row of the raw window, with its wiki resolved to an id.
pub struct RawEventRow {
    pub event_id: String,
    pub ts: Timestamp,
    pub wiki_id: i16,
    pub kind: String,
    pub bot: bool,
    pub bytes_delta: Option<i64>,
    pub user: String,
}

/// A per-wiki counter row of an hour or day bucket.
#[derive(Clone, Copy, Debug, PartialEq, Eq, Structural)]
pub struct WikiRow {
    pub grain: u8,
    pub bucket_start: i64,
    pub wiki_id: i16,
    pub counters: Counters,
}

/// The cursor a batch advances to.
pub struct CursorRow {
    pub last_event_id: String,
    pub last_event_ts: Timestamp,
}

/// The audit ledger row of a batch.
pub struct LedgerRow {
    pub last_event_id: String,
    pub first_event_ts: Timestamp,
    pub last_event_ts: Timestamp,
    pub events: i32,
}

/// Everything one batch writes, in the order of its transaction: raw rows;
/// totals rows at minute, hour and day grain; per-wiki rows at hour and day
/// grain; the cursor; the ledger row.
pub struct FlushPlan {
    pub raws: Vec<RawEventRow>,
    pub minute_totals: Vec<TotalsRow>,
    pub hour_totals: Vec<TotalsRow>,
    pub day_totals: Vec<TotalsRow>,
    pub hour_wikis: Vec<WikiRow>,
    pub day_wikis: Vec<WikiRow>,
    pub cursor: CursorRow,
    pub ledger: LedgerRow,
}

/// Every row's wiki has an id.
pub open spec fn all_resolved(rows: Seq<RawRow>, dir: Map<Seq<char>, i16>) -> bool {
    forall|i: int| 0 <= i < rows.len() ==> dir.contains_key(#[trigger] rows[i].server_name@)
}

/// `e` is the raw-window row of `r`, its wiki resolved through `dir`.
pub open spec fn raw_row_matches(e: RawEventRow, r: RawRow, dir: Map<Seq<char>, i16>) -> bool {
    &&& e.event_id@ == r.event_id@
    &&& e.ts == r.ts
    &&& e.wiki_id == dir[r.server_name@]
    &&& e.kind@ == r.kind@
    &&& e.bot == r.bot
    &&& e.bytes_delta == r.bytes_delta
    &&& e.user@ == r.user@
}

/// The per-wiki rows of the rows at one grain: one per (bucket, wiki) pair
/// that a content edit touches, in first-touch order, with the pair's
/// counters and the wiki's id.
pub open spec fn wiki_rows_match(ws: Seq<WikiRow>, rows: Seq<RawRow>, grain: u8, dir: Map<Seq<char>, i16>) -> bool {
    let keys = wiki_keys(rows, grain);
    &&& ws.len() == keys.len()
    &&& forall|j: int|
        0 <= j < ws.len() ==> {
            &&& (#[trigger] ws[j]).grain == grain
            &&& ws[j].bucket_start as int == keys[j].0
            &&& ws[j].wiki_id == dir[keys[j].1]
            &&& ws[j].counters@ == wiki_tally(rows, grain, keys[j].0, keys[j].1)
        }
}

/// The rollup table of a grain.
pub fn rollup_table(grain: u8) -> (t: &'static str)
    ensures
        grain == G_MINUTE ==> t@ == "rollup_minute"@,
        grain == G_HOUR ==> t@ == "rollup_hour"@,
        grain != G_MINUTE && grain != G_HOUR ==> t@ == "rollup_day"@,
{
    if grain == G_MINUTE {
        "rollup_minute"
    } else if grain == G_HOUR {
        "rollup_hour"
    } else {
        "rollup_day"
    }
}

/// The per-wiki rows of a batch at one grain.
pub fn wiki_rows(buf: &Buffer, dir: &WikiDirectory, grain: u8) -> (out: Vec<WikiRow>)
    requires
        buf.wf(),
        dir.wf(),
        all_resolved(buf@.raws, dir@),
    ensures
        wiki_rows_match(out@, buf@.raws, grain, dir@),
{
    let deltas = wiki_deltas(buf, grain);
    let ghost rows = buf@.raws;
    let ghost keys = wiki_keys(rows, grain);
    proof {
        lemma_wiki_key_names(rows, grain);
        assert(crate::wiki::wiki_entry_keys(deltas@) == keys);
    }
    let mut out: Vec<WikiRow> = Vec::new();
    let n = deltas.len();
    for j in 0..n
        invariant
            n == deltas@.len(),
            dir.wf(),
            crate::wiki::wiki_deltas_match(deltas@, rows, grain),
            keys == wiki_keys(rows, grain),
            all_resolved(rows, dir@),
            forall|k: (int, Seq<char>)|
                #[trigger] keys.contains(k) ==> exists|i: int|
                    0 <= i < rows.len() && (#[trigger] rows[i]).server_name@ == k.1,
            out@.len() == j,
            forall|q: int|
                0 <= q < j ==> {
                    &&& (#[trigger] out@[q]).grain == grain
                    &&& out@[q].bucket_start as int == keys[q].0
                    &&& out@[q].wiki_id == dir@[keys[q].1]
                    &&& out@[q].counters@ == wiki_tally(rows, grain, keys[q].0, keys[q].1)
                },
    {
        let e = &deltas[j];
        proof {
            assert(crate::wiki::wiki_entry_keys(deltas@)[j as int] == keys[j as int]);
            assert(keys.contains(keys[j as int]));
        }
        let id = match dir.get(e.server_name.as_str()) {
            Some(id) => id,
            None => {
                proof {
                    let i = choose|i: int| 0 <= i < rows.len() && (#[trigger] rows[i]).server_name@ == keys[j as int].1;
                    assert(dir@.contains_key(rows[i].server_name@));
                }
                0
            },
        };
        out.push(WikiRow { grain, bucket_start: e.bucket_start, wiki_id: id, counters: e.delta });
    }
    out
}

/// Plans the batch's transaction, once every wiki of the batch has an id:
/// `None` when the batch is empty (an empty flush writes nothing, not even a
/// ledger row) or some wiki is still unresolved.
pub fn plan_flush(buf: &Buffer, dir: &WikiDirectory) -> (r: Option<FlushPlan>)
    requires
        buf.wf(),
        dir.wf(),
    ensures
        r is Some <==> (buf@.raws.len() > 0 && all_resolved(buf@.raws, dir@)),
        r matches Some(p) ==> {
            let rows = buf@.raws;
            &&& p.raws@.len() == rows.len()
            &&& forall|i: int| 0 <= i < rows.len() ==> raw_row_matches(#[trigger] p.raws@[i], rows[i], dir@)
            &&& p.minute_totals@ == grain_totals(rows, G_MINUTE)
            &&& p.hour_totals@ == grain_totals(rows, G_HOUR)
            &&& p.day_totals@ == grain_totals(rows, G_DAY)
            &&& wiki_rows_match(p.hour_wikis@, rows, G_HOUR, dir@)
            &&& wiki_rows_match(p.day_wikis@, rows, G_DAY, dir@)
            &&& p.cursor.last_event_id@ == buf@.last_event_id
            &&& p.cursor.last_event_ts == buf@.last_event_ts
            &&& p.ledger.last_event_id@ == buf@.last_event_id
            &&& p.ledger.first_event_ts == rows[0].ts
            &&& p.ledger.last_event_ts == buf@.last_event_ts
            &&& p.ledger.events == #[verifier::truncate] (rows.len() as i32)
        },
{
    if buf.is_empty() {
        return None;
    }
    let raws = buf.raws();
    let ghost rows = raws@;
    let n = raws.len();
    let mut out: Vec<RawEventRow> = Vec::new();
    for i in 0..n
        invariant
            n == rows.len(),
            raws@ == rows,
            rows == buf@.raws,
            dir.wf(),
            out@.len() == i,
            forall|q: int| 0 <= q < i ==> dir@.contains_key(#[trigger] rows[q].server_name@),
            forall|q: int| 0 <= q < i ==> raw_row_matches(#[trigger] out@[q], rows[q], dir@),
    {
        let r = &raws[i];
        match dir.get(r.server_name.as_str()) {
            Some(id) => {
                out.push(
                    RawEventRow {
                        event_id: r.event_id.clone(),
                        ts: r.ts,
                        wiki_id: id,
                        kind: r.kind.clone(),
                        bot: r.bot,
                        bytes_delta: r.bytes_delta,
                        user: r.user.clone(),
                    },
                );
            },
            None => {
                assert(!dir@.contains_key(rows[i as int].server_name@));
                return None;
            },
        }
    }
    let minute_totals = buf.totals_rows(G_MINUTE);
    let hour_totals = buf.totals_rows(G_HOUR);
    let day_totals = buf.totals_rows(G_DAY);
    let hour_wikis = wiki_rows(buf, dir, G_HOUR);
    let day_wikis = wiki_rows(buf, dir, G_DAY);
    let cursor = CursorRow {
        last_event_id: buf.last_event_id().clone(),
        last_event_ts: buf.last_event_ts(),
    };
    let ledger = LedgerRow {
        last_event_id: buf.last_event_id().clone(),
        first_event_ts: raws[0].ts,
        last_event_ts: buf.last_event_ts(),
        events: #[verifier::truncate] (n as i32),
    };
    Some(
        FlushPlan {
            raws: out,
            minute_totals,
            hour_totals,
            day_totals,
            hour_wikis,
            day_wikis,
            cursor,
            ledger,
        },
    )
}

} // verus!
