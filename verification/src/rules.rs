use vstd::prelude::*;

use crate::buffer::{admits, grain_totals, row_of, sighting_matches, totals_for, Buffer, EditorSighting, TotalsRow};
use crate::event::{delta_fits, stored_delta, Length, RcEvent};
use crate::flush::{raw_row_matches, RawEventRow};
use crate::order::rows_of;
use crate::tally::{bucket_keys, bucket_tally, lemma_add_key, RawRow, Tally};
use crate::time::{bucket_start, Timestamp, G_DAY, G_HOUR, G_MINUTE};

verus! {

/// Law: an event is counted exactly when its type is `edit` or `new`. Any
/// other type (`log`, `categorize`, `external`, ...) leaves every bucket's
/// counters and the bucket keys as they were. An `edit` or a `new` makes its
/// minute, hour and day bucket present and adds to it one edit, one new page
/// if it is a `new`, one bot edit if it is a bot's, and its byte delta to
/// the bytes added when positive, to the bytes removed otherwise; buckets it
/// does not fall in are left as they were.
pub proof fn law_counted_iff_edit_or_new(rows: Seq<RawRow>, r: RawRow, grain: u8, start: int)
    ensures
        !(r.kind@ == "edit"@ || r.kind@ == "new"@) ==> {
            &&& bucket_tally(rows.push(r), grain, start) == bucket_tally(rows, grain, start)
            &&& bucket_keys(rows.push(r)) == bucket_keys(rows)
        },
        (r.kind@ == "edit"@ || r.kind@ == "new"@) && grain < 3 ==> {
            let k = bucket_start(r.ts.secs as int, grain);
            let before = bucket_tally(rows, grain, k);
            let after = bucket_tally(rows.push(r), grain, k);
            let d: int = match r.bytes_delta {
                Some(d) => d as int,
                None => 0,
            };
            &&& bucket_keys(rows.push(r)).contains((grain, k))
            &&& after.edits == before.edits + 1
            &&& after.new_pages == before.new_pages + (if r.kind@ == "new"@ { 1int } else { 0int })
            &&& after.bot_edits == before.bot_edits + (if r.bot { 1int } else { 0int })
            &&& after.bytes_added == before.bytes_added + (if d > 0 { d } else { 0 })
            &&& after.bytes_removed == before.bytes_removed + (if d > 0 { 0 } else { -d })
        },
        start != bucket_start(r.ts.secs as int, grain) ==> bucket_tally(rows.push(r), grain, start)
            == bucket_tally(rows, grain, start),
{
    let all = rows.push(r);
    assert(all.drop_last() =~= rows);
    assert(all.last() == r);
    let s = r.ts.secs as int;
    let keys = bucket_keys(rows);
    let k1 = crate::tally::add_key(keys, (G_MINUTE, bucket_start(s, G_MINUTE)));
    let k2 = crate::tally::add_key(k1, (G_HOUR, bucket_start(s, G_HOUR)));
    lemma_add_key(keys, (G_MINUTE, bucket_start(s, G_MINUTE)));
    lemma_add_key(k1, (G_HOUR, bucket_start(s, G_HOUR)));
    lemma_add_key(k2, (G_DAY, bucket_start(s, G_DAY)));
}

/// Law: the byte delta of an event fits its 64-bit column unless the event
/// is an edit with both page lengths whose `new − old` leaves the `i64`
/// range; a same-length edit (delta 0), a new page and an event without
/// lengths always fit.
pub proof fn law_delta_fits_exactly(kind: Seq<char>, length: Option<Length>)
    ensures
        kind == "edit"@ && length is Some && length.unwrap().new is Some && length.unwrap().old is Some
            ==> (delta_fits(kind, length) <==> i64::MIN <= length.unwrap().new.unwrap()
            - length.unwrap().old.unwrap() <= i64::MAX),
        !(kind == "edit"@ && length is Some && length.unwrap().new is Some
            && length.unwrap().old is Some) ==> delta_fits(kind, length),
{
}

/// Law: the stored byte delta of an event is `new − old` for an edit with
/// both page lengths, the new length for a new page with one, and nothing
/// for any other event.
pub proof fn law_stored_delta(kind: Seq<char>, length: Option<Length>)
    requires
        delta_fits(kind, length),
    ensures
        kind == "edit"@ && length is Some && length.unwrap().new is Some && length.unwrap().old is Some
            ==> (stored_delta(kind, length) matches Some(d) && d == length.unwrap().new.unwrap()
            - length.unwrap().old.unwrap()),
        kind == "new"@ && length is Some && length.unwrap().new is Some ==> stored_delta(kind, length)
            == Some(length.unwrap().new.unwrap()),
        !(kind == "edit"@ && length is Some && length.unwrap().new is Some
            && length.unwrap().old is Some) && !(kind == "new"@ && length is Some
            && length.unwrap().new is Some) ==> stored_delta(kind, length) is None,
{
    if kind == "new"@ {
        assert(kind != "edit"@) by {
            reveal_strlit("new");
            reveal_strlit("edit");
            if kind == "edit"@ {
                assert("new"@[0] != "edit"@[0]);
            }
        }
    }
}

/// Lengths of at most 2^40 bytes either way.
pub open spec fn small_lengths(length: Option<Length>) -> bool {
    length matches Some(l) ==> {
        &&& (l.old matches Some(o) ==> -0x100_0000_0000 <= o <= 0x100_0000_0000)
        &&& (l.new matches Some(n) ==> -0x100_0000_0000 <= n <= 0x100_0000_0000)
    }
}

/// Law: an empty batch takes in every event whose page lengths are at most
/// 2^40 bytes either way, whatever its type, bot flag or lengths: nothing
/// but a bad timestamp or a counter overflow is refused, and neither can
/// overflow here.
pub proof fn law_small_event_admitted(ev: RcEvent, ts: Timestamp)
    requires
        small_lengths(ev.length),
    ensures
        admits(Seq::<RawRow>::empty(), &ev, ts),
{
    law_delta_fits_exactly(ev.kind@, ev.length);
    let row = row_of(&ev, ts);
    let rows = Seq::<RawRow>::empty().push(row);
    assert(rows.drop_last() =~= Seq::<RawRow>::empty());
    assert(rows.last() == row);
    law_stored_delta(ev.kind@, ev.length);
    assert(row.bytes_delta matches Some(d) ==> -0x200_0000_0000 <= d <= 0x200_0000_0000);
    assert forall|g: u8| g < 3 implies #[trigger] bucket_tally(rows, g, bucket_start(ts.secs as int, g)).fits() by {
        let k = bucket_start(ts.secs as int, g);
        assert(bucket_tally(rows.drop_last(), g, k) == Tally::zero());
        let t = bucket_tally(rows, g, k);
        assert(t == Tally::zero() || t == Tally::zero().plus(crate::tally::row_tally(row)));
    }
}

/// Law: the raw row of an event keeps the event: its id, the instant it was
/// timed at, its wiki, type, bot flag and editor.
pub proof fn law_row_keeps_event(ev: RcEvent, ts: Timestamp)
    ensures
        row_of(&ev, ts).event_id@ == ev.meta.id@,
        row_of(&ev, ts).ts == ts,
        row_of(&ev, ts).server_name@ == ev.server_name@,
        row_of(&ev, ts).kind@ == ev.kind@,
        row_of(&ev, ts).bot == ev.bot,
        row_of(&ev, ts).user@ == ev.user@,
        row_of(&ev, ts).bytes_delta == stored_delta(ev.kind@, ev.length),
{
}

/// Law: the raw-window rows of a flush plan carry the batch's events one for
/// one: row `i` has the id, instant, type, bot flag, byte delta and editor of
/// the `i`-th event taken in, and the id of its wiki.
pub proof fn law_plan_raws_carry_events(
    es: Seq<RawEventRow>,
    evs: Seq<(RcEvent, Timestamp)>,
    dir: Map<Seq<char>, i16>,
    i: int,
)
    requires
        es.len() == evs.len(),
        forall|j: int| 0 <= j < es.len() ==> raw_row_matches(#[trigger] es[j], rows_of(evs)[j], dir),
        0 <= i < es.len(),
    ensures
        es[i].event_id@ == evs[i].0.meta.id@,
        es[i].ts == evs[i].1,
        es[i].wiki_id == dir[evs[i].0.server_name@],
        es[i].kind@ == evs[i].0.kind@,
        es[i].bot == evs[i].0.bot,
        es[i].bytes_delta == stored_delta(evs[i].0.kind@, evs[i].0.length),
        es[i].user@ == evs[i].0.user@,
{
    assert(raw_row_matches(es[i], rows_of(evs)[i], dir));
    assert(rows_of(evs)[i] == row_of(&evs[i].0, evs[i].1));
}

/// Law: what `push` reports for the unique-editor sketches. An `edit` or a
/// `new` that names an editor reports that editor for its minute, hour and
/// day buckets, bot or not; any other event, or one without an editor,
/// reports nothing.
pub proof fn law_sighting_reports_editor(s: Option<EditorSighting>, ev: RcEvent, ts: Timestamp)
    requires
        sighting_matches(s, &ev, ts),
    ensures
        (ev.kind@ == "edit"@ || ev.kind@ == "new"@) && ev.user@.len() > 0 ==> {
            &&& s matches Some(x)
            &&& x.user@ == ev.user@
            &&& x.buckets@ == seq![
                (G_MINUTE, ((ts.secs as int / 60) * 60) as i64),
                (G_HOUR, ((ts.secs as int / 3600) * 3600) as i64),
                (G_DAY, ((ts.secs as int / 86400) * 86400) as i64),
            ]
        },
        !((ev.kind@ == "edit"@ || ev.kind@ == "new"@) && ev.user@.len() > 0) ==> s is None,
{
}

/// The totals rows made for `keys`, when the keys are distinct and start at
/// 64-bit seconds: one per key of the grain, with that bucket's counters.
proof fn lemma_totals_for(keys: Seq<(u8, int)>, rows: Seq<RawRow>, grain: u8)
    requires
        keys.no_duplicates(),
        forall|j: int| 0 <= j < keys.len() ==> i64::MIN <= (#[trigger] keys[j]).1 <= i64::MAX,
        forall|k: int| #[trigger] bucket_tally(rows, grain, k).fits(),
    ensures
        forall|i: int|
            0 <= i < totals_for(keys, rows, grain).len() ==> {
                let t = #[trigger] totals_for(keys, rows, grain)[i];
                &&& t.grain == grain
                &&& keys.contains((grain, t.bucket_start as int))
                &&& t.counters@ == bucket_tally(rows, grain, t.bucket_start as int)
            },
        forall|k: int|
            #[trigger] keys.contains((grain, k)) ==> exists|i: int|
                0 <= i < totals_for(keys, rows, grain).len() && (#[trigger] totals_for(
                    keys,
                    rows,
                    grain,
                )[i]).bucket_start == k,
        forall|i: int, j: int|
            0 <= i < j < totals_for(keys, rows, grain).len() ==> (#[trigger] totals_for(
                keys,
                rows,
                grain,
            )[i]).bucket_start != (#[trigger] totals_for(keys, rows, grain)[j]).bucket_start,
    decreases keys.len(),
{
    if keys.len() > 0 {
        let p = keys.drop_last();
        let last = keys.last();
        assert(p.no_duplicates()) by {
            assert forall|a: int, b: int| 0 <= a < p.len() && 0 <= b < p.len() && a != b implies p[a]
                != p[b] by {
                assert(p[a] == keys[a] && p[b] == keys[b]);
            }
        }
        assert forall|j: int| 0 <= j < p.len() implies i64::MIN <= (#[trigger] p[j]).1 <= i64::MAX by {
            assert(p[j] == keys[j]);
        }
        lemma_totals_for(p, rows, grain);
        let prev = totals_for(p, rows, grain);
        let cur = totals_for(keys, rows, grain);
        assert(keys[keys.len() - 1] == last);
        assert forall|x: (u8, int)| p.contains(x) implies keys.contains(x) by {
            let j = choose|j: int| 0 <= j < p.len() && p[j] == x;
            assert(keys[j] == x);
        }
        assert(!p.contains(last)) by {
            if p.contains(last) {
                let j = choose|j: int| 0 <= j < p.len() && p[j] == last;
                assert(keys[j] == keys[keys.len() - 1]);
            }
        }
        assert forall|k: int| #[trigger] keys.contains((grain, k)) implies exists|i: int|
            0 <= i < cur.len() && (#[trigger] cur[i]).bucket_start == k by {
            let j = choose|j: int| 0 <= j < keys.len() && keys[j] == (grain, k);
            if j < keys.len() - 1 {
                assert(p[j] == keys[j]);
                assert(p.contains((grain, k)));
                let i = choose|i: int| 0 <= i < prev.len() && (#[trigger] prev[i]).bucket_start == k;
                assert(cur[i] == prev[i]);
            } else {
                assert(cur[cur.len() - 1].bucket_start == k);
            }
        }
        if last.0 == grain {
            assert forall|i: int| 0 <= i < prev.len() implies (#[trigger] prev[i]).bucket_start as int
                != last.1 by {
                assert(p.contains((grain, prev[i].bucket_start as int)));
            }
            let t = bucket_tally(rows, grain, last.1);
            assert(t.fits());
            assert(i64::MIN <= keys[keys.len() - 1].1 <= i64::MAX);
            assert((last.1 as i64) as int == last.1);
            assert(crate::buffer::counters_of(t)@ == t);
            assert(cur[cur.len() - 1].counters@ == t);
            assert forall|i: int| 0 <= i < cur.len() implies {
                let u = #[trigger] cur[i];
                &&& u.grain == grain
                &&& keys.contains((grain, u.bucket_start as int))
                &&& u.counters@ == bucket_tally(rows, grain, u.bucket_start as int)
            } by {
                if i < prev.len() {
                    assert(cur[i] == prev[i]);
                    assert(p.contains((grain, prev[i].bucket_start as int)));
                }
            }
        } else {
            assert forall|i: int| 0 <= i < cur.len() implies {
                let u = #[trigger] cur[i];
                &&& u.grain == grain
                &&& keys.contains((grain, u.bucket_start as int))
                &&& u.counters@ == bucket_tally(rows, grain, u.bucket_start as int)
            } by {
                assert(cur[i] == prev[i]);
                assert(p.contains((grain, prev[i].bucket_start as int)));
            }
        }
    }
}

/// Law: the totals rows of a batch at one grain are its buckets of that
/// grain, each once, with each bucket's counters: every row names a bucket
/// that a content edit of the batch falls in and holds that bucket's tally,
/// and every such bucket has a row.
pub proof fn law_totals_rows(buf: &Buffer, grain: u8)
    requires
        buf.wf(),
    ensures
        forall|i: int|
            0 <= i < grain_totals(buf@.raws, grain).len() ==> {
                let t = #[trigger] grain_totals(buf@.raws, grain)[i];
                &&& t.grain == grain
                &&& bucket_keys(buf@.raws).contains((grain, t.bucket_start as int))
                &&& t.counters@ == bucket_tally(buf@.raws, grain, t.bucket_start as int)
            },
        forall|k: int|
            #[trigger] bucket_keys(buf@.raws).contains((grain, k)) ==> exists|i: int|
                0 <= i < grain_totals(buf@.raws, grain).len() && (#[trigger] grain_totals(
                    buf@.raws,
                    grain,
                )[i]).bucket_start == k,
        forall|i: int, j: int|
            0 <= i < j < grain_totals(buf@.raws, grain).len() ==> (#[trigger] grain_totals(
                buf@.raws,
                grain,
            )[i]).bucket_start != (#[trigger] grain_totals(buf@.raws, grain)[j]).bucket_start,
{
    buf.lemma_wf_facts();
    buf.lemma_keys_in_range();
    crate::tally::lemma_bucket_keys_shape(buf@.raws);
    lemma_totals_for(bucket_keys(buf@.raws), buf@.raws, grain);
}

} // verus!
