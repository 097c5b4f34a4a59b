use vstd::prelude::*;

use crate::event::{
    bytes_delta, delta_fits, delta_in_range, is_content, is_content_kind, stored_delta, RcEvent,
};
use crate::tally::{
    add_key, bucket_keys, bucket_tally, in_bucket, lemma_add_key, lemma_bucket_keys_shape,
    lemma_untouched_bucket_is_zero, row_tally, contribution, BucketAcc, Counters, RawRow, Tally,
};
use crate::text::same_text;
use crate::time::{
    bucket_key, bucket_start, parse_rfc3339_utc, rfc3339_instant, Timestamp, G_DAY, G_HOUR,
    G_MINUTE,
};

verus! {

/// A batch is flushed once it holds this many events.
pub const FLUSH_EVERY_EVENTS: usize = 256;

/// The accumulator of one bucket of one grain.
#[derive(Clone, Copy, Debug, PartialEq, Eq, Structural)]
pub struct BucketEntry {
    pub grain: u8,
    pub start: i64,
    pub acc: BucketAcc,
}

/// An editor seen in a content edit: the unique-editor sketches of these
/// buckets, in grain order, take the editor in.
pub struct EditorSighting {
    pub user: String,
    pub buckets: Vec<(u8, i64)>,
}

/// Why an event was not taken into the batch.
#[derive(Debug)]
pub enum PushError {
    /// `meta.dt` is not an RFC 3339 date-time; holds the text.
    BadTimestamp(String),
    /// A counter of one of the event's buckets would leave the 64-bit range.
    CounterOverflow,
}

/// The events of the current batch and the counters derived from them.
pub struct Buffer {
    buckets: Vec<BucketEntry>,
    raws: Vec<RawRow>,
    last_event_id: String,
    last_event_ts: Timestamp,
}

/// What a buffer holds: its raw rows, and the id and time of the last event
/// taken in.
pub struct BufferView {
    pub raws: Seq<RawRow>,
    pub last_event_id: Seq<char>,
    pub last_event_ts: Timestamp,
}

impl View for Buffer {
    type V = BufferView;

    closed spec fn view(&self) -> BufferView {
        BufferView {
            raws: self.raws@,
            last_event_id: self.last_event_id@,
            last_event_ts: self.last_event_ts,
        }
    }
}

/// A totals row of one bucket: its grain, start and counters.
#[derive(Clone, Copy, Debug, PartialEq, Eq, Structural)]
pub struct TotalsRow {
    pub grain: u8,
    pub bucket_start: i64,
    pub counters: Counters,
}

/// The 64-bit counters that hold a tally.
pub open spec fn counters_of(t: Tally) -> Counters {
    Counters {
        edits: t.edits as i64,
        new_pages: t.new_pages as i64,
        bot_edits: t.bot_edits as i64,
        bytes_added: t.bytes_added as i64,
        bytes_removed: t.bytes_removed as i64,
    }
}

/// The totals rows of grain `grain` for the buckets `keys`, in their order.
pub open spec fn totals_for(keys: Seq<(u8, int)>, rows: Seq<RawRow>, grain: u8) -> Seq<TotalsRow>
    decreases keys.len(),
{
    if keys.len() == 0 {
        Seq::empty()
    } else {
        let prev = totals_for(keys.drop_last(), rows, grain);
        let k = keys.last();
        if k.0 == grain {
            prev.push(
                TotalsRow {
                    grain,
                    bucket_start: k.1 as i64,
                    counters: counters_of(bucket_tally(rows, grain, k.1)),
                },
            )
        } else {
            prev
        }
    }
}

/// The totals rows of a batch at one grain: one per bucket of that grain
/// that its content edits touch, in first-touch order, with the bucket's
/// counters.
pub open spec fn grain_totals(rows: Seq<RawRow>, grain: u8) -> Seq<TotalsRow> {
    totals_for(bucket_keys(rows), rows, grain)
}

/// The keys of bucket entries, in order.
pub open spec fn keys_of(entries: Seq<BucketEntry>) -> Seq<(u8, int)> {
    entries.map_values(|e: BucketEntry| (e.grain, e.start as int))
}

/// The raw row that an event becomes at instant `ts`.
pub open spec fn row_of(ev: &RcEvent, ts: Timestamp) -> RawRow {
    RawRow {
        event_id: ev.meta.id,
        ts,
        server_name: ev.server_name,
        kind: ev.kind,
        bot: ev.bot,
        bytes_delta: stored_delta(ev.kind@, ev.length),
        user: ev.user,
    }
}

/// The event, at instant `ts`, can be counted: its byte delta fits 64 bits and
/// so does every counter of the three buckets it falls in.
pub open spec fn admits(raws: Seq<RawRow>, ev: &RcEvent, ts: Timestamp) -> bool {
    &&& delta_fits(ev.kind@, ev.length)
    &&& forall|g: u8|
        g < 3 ==> #[trigger] bucket_tally(raws.push(row_of(ev, ts)), g, bucket_start(ts.secs as int, g)).fits()
}

/// What `push` hands back for an event at `ts`: a sighting of its editor for
/// its three buckets when it is a content edit that names an editor.
pub open spec fn sighting_matches(s: Option<EditorSighting>, ev: &RcEvent, ts: Timestamp) -> bool {
    match s {
        Some(s) => {
            &&& is_content_kind(ev.kind@)
            &&& ev.user@.len() > 0
            &&& s.user@ == ev.user@
            &&& s.buckets@ == seq![
                (G_MINUTE, bucket_start(ts.secs as int, G_MINUTE) as i64),
                (G_HOUR, bucket_start(ts.secs as int, G_HOUR) as i64),
                (G_DAY, bucket_start(ts.secs as int, G_DAY) as i64),
            ]
        },
        None => !(is_content_kind(ev.kind@) && ev.user@.len() > 0),
    }
}

/// A grain code past the day's counts as a day.
pub proof fn lemma_grain_alias(rows: Seq<RawRow>, grain: u8, start: int)
    requires
        grain >= 3,
    ensures
        bucket_tally(rows, grain, start) == bucket_tally(rows, G_DAY, start),
    decreases rows.len(),
{
    if rows.len() > 0 {
        lemma_grain_alias(rows.drop_last(), grain, start);
    }
}

pub proof fn lemma_tally_nonneg(rows: Seq<RawRow>, grain: u8, start: int)
    ensures
        bucket_tally(rows, grain, start).edits >= 0,
        bucket_tally(rows, grain, start).new_pages >= 0,
        bucket_tally(rows, grain, start).bot_edits >= 0,
        bucket_tally(rows, grain, start).bytes_added >= 0,
        bucket_tally(rows, grain, start).bytes_removed >= 0,
    decreases rows.len(),
{
    if rows.len() > 0 {
        lemma_tally_nonneg(rows.drop_last(), grain, start);
    }
}

/// Adds `c` to the entry of bucket `(grain, start)`, which is appended when
/// there is none.
fn add_to_bucket(entries: &mut Vec<BucketEntry>, grain: u8, start: i64, c: Counters)
    requires
        c@.fits(),
        keys_of(old(entries)@).no_duplicates(),
        forall|i: int| 0 <= i < old(entries)@.len() ==> (#[trigger] old(entries)@[i]).acc@.fits(),
        forall|i: int|
            0 <= i < old(entries)@.len() && (#[trigger] old(entries)@[i]).grain == grain
                && old(entries)@[i].start == start ==> old(entries)@[i].acc@.plus(c@).fits(),
    ensures
        keys_of(final(entries)@) == add_key(keys_of(old(entries)@), (grain, start as int)),
        final(entries)@.len() >= old(entries)@.len(),
        forall|i: int|
            0 <= i < old(entries)@.len() ==> {
                &&& (#[trigger] final(entries)@[i]).grain == old(entries)@[i].grain
                &&& final(entries)@[i].start == old(entries)@[i].start
                &&& final(entries)@[i].acc@ == if old(entries)@[i].grain == grain
                    && old(entries)@[i].start == start {
                    old(entries)@[i].acc@.plus(c@)
                } else {
                    old(entries)@[i].acc@
                }
            },
        final(entries)@.len() > old(entries)@.len() ==> final(entries)@.len() == old(
            entries,
        )@.len() + 1 && final(entries)@[old(entries)@.len() as int] == (BucketEntry {
            grain,
            start,
            acc: c,
        }),
{
    let ghost old_keys = keys_of(entries@);
    let n = entries.len();
    let mut i: usize = 0;
    while i < n
        invariant
            n == entries@.len(),
            i <= n,
            entries@ == old(entries)@,
            old_keys == keys_of(entries@),
            old_keys.no_duplicates(),
            c@.fits(),
            forall|j: int| 0 <= j < entries@.len() ==> (#[trigger] entries@[j]).acc@.fits(),
            forall|j: int|
                0 <= j < entries@.len() && (#[trigger] entries@[j]).grain == grain
                    && entries@[j].start == start ==> entries@[j].acc@.plus(c@).fits(),
            forall|j: int|
                0 <= j < i ==> !((#[trigger] entries@[j]).grain == grain && entries@[j].start
                    == start),
        decreases n - i,
    {
        if entries[i].grain == grain && entries[i].start == start {
            let mut e = entries[i];
            assert(old_keys[i as int] == (grain, start as int));
            e.acc = e.acc.add(c);
            entries.set(i, e);
            assert(old_keys.contains((grain, start as int)));
            assert(keys_of(entries@) =~= old_keys);
            assert forall|j: int| 0 <= j < n && j != i implies !(
            (#[trigger] old(entries)@[j]).grain == grain && old(entries)@[j].start == start) by {
                assert(old_keys[j] == (old(entries)@[j].grain, old(entries)@[j].start as int));
                assert(old_keys[i as int] == (old(entries)@[i as int].grain, old(entries)@[i as int].start as int));
            }
            return ;
        }
        i += 1;
    }
    entries.push(BucketEntry { grain, start, acc: c });
    assert(!old_keys.contains((grain, start as int))) by {
        if old_keys.contains((grain, start as int)) {
            let j = choose|j: int| 0 <= j < old_keys.len() && old_keys[j] == (grain, start as int);
            assert(old(entries)@[j].grain == grain);
        }
    }
    assert(keys_of(entries@) =~= old_keys.push((grain, start as int)));
}

impl Default for Buffer {
    /// The empty buffer of `Buffer::new`.
    fn default() -> (b: Buffer)
        ensures
            b.wf(),
            b@.raws == Seq::<RawRow>::empty(),
            b@.last_event_id == Seq::<char>::empty(),
            b@.last_event_ts == (Timestamp { secs: 0, nanos: 0 }),
    {
        Buffer::new()
    }
}

impl Buffer {
    /// The buffer's bucket entries are exactly the buckets its raw rows
    /// touch, in first-touch order, each holding that bucket's counters;
    /// every instant it holds is a valid UTC instant.
    pub closed spec fn wf(&self) -> bool {
        &&& forall|i: int| 0 <= i < self.raws@.len() ==> (#[trigger] self.raws@[i]).ts.valid()
        &&& self.last_event_ts.valid()
        &&& keys_of(self.buckets@) == bucket_keys(self.raws@)
        &&& forall|i: int|
            0 <= i < self.buckets@.len() ==> (#[trigger] self.buckets@[i]).acc@ == bucket_tally(
                self.raws@,
                self.buckets@[i].grain,
                self.buckets@[i].start as int,
            )
    }

    /// An empty buffer; its last event is the empty id at the epoch.
    pub fn new() -> (b: Buffer)
        ensures
            b.wf(),
            b@.raws == Seq::<RawRow>::empty(),
            b@.last_event_id == Seq::<char>::empty(),
            b@.last_event_ts == (Timestamp { secs: 0, nanos: 0 }),
    {
        let b = Buffer {
            buckets: Vec::new(),
            raws: Vec::new(),
            last_event_id: String::new(),
            last_event_ts: Timestamp::epoch(),
        };
        assert(keys_of(b.buckets@) =~= Seq::<(u8, int)>::empty());
        b
    }

    /// Number of events in the batch.
    pub fn len(&self) -> (n: usize)
        ensures
            n == self@.raws.len(),
    {
        self.raws.len()
    }

    /// Whether the batch holds no event.
    pub fn is_empty(&self) -> (r: bool)
        ensures
            r == (self@.raws.len() == 0),
    {
        self.raws.len() == 0
    }

    /// Whether the batch has reached the size at which it is flushed.
    pub fn batch_full(&self) -> (r: bool)
        ensures
            r == (self@.raws.len() >= FLUSH_EVERY_EVENTS),
    {
        self.raws.len() >= FLUSH_EVERY_EVENTS
    }

    /// The counters of bucket `(grain, start)`, if some content edit of the
    /// batch falls in it.
    pub fn bucket(&self, grain: u8, start: i64) -> (r: Option<Counters>)
        requires
            self.wf(),
        ensures
            match r {
                Some(c) => bucket_keys(self@.raws).contains((grain, start as int)) && c@
                    == bucket_tally(self@.raws, grain, start as int),
                None => !bucket_keys(self@.raws).contains((grain, start as int)),
            },
    {
        let n = self.buckets.len();
        for i in 0..n
            invariant
                n == self.buckets@.len(),
                self.wf(),
                forall|j: int|
                    0 <= j < i ==> !((#[trigger] self.buckets@[j]).grain == grain
                        && self.buckets@[j].start == start),
        {
            if self.buckets[i].grain == grain && self.buckets[i].start == start {
                assert(keys_of(self.buckets@)[i as int] == (grain, start as int));
                return Some(self.buckets[i].acc);
            }
        }
        proof {
            if bucket_keys(self@.raws).contains((grain, start as int)) {
                let ks = keys_of(self.buckets@);
                let j = choose|j: int| 0 <= j < ks.len() && ks[j] == (grain, start as int);
                assert(self.buckets@[j].grain == grain);
            }
        }
        None
    }

    /// Takes an event, already timed at `ts`, into the batch: its raw row is
    /// appended, it becomes the last event, and a content edit is counted in
    /// its minute, hour and day buckets.
    pub fn push_parsed(&mut self, ev: RcEvent, ts: Timestamp) -> (sighting: Option<EditorSighting>)
        requires
            old(self).wf(),
            ts.valid(),
            admits(old(self)@.raws, &ev, ts),
        ensures
            final(self).wf(),
            final(self)@.raws == old(self)@.raws.push(row_of(&ev, ts)),
            final(self)@.last_event_id == ev.meta.id@,
            final(self)@.last_event_ts == ts,
            sighting_matches(sighting, &ev, ts),
    {
        let ghost old_raws = self.raws@;
        let ghost row = row_of(&ev, ts);
        let delta = bytes_delta(&ev.kind, &ev.length);
        let content = is_content(&ev.kind);
        let is_new = same_text(&ev.kind, "new");
        let bot = ev.bot;
        let user = ev.user;
        let named = !user.as_str().is_empty();
        self.last_event_id = ev.meta.id.clone();
        self.last_event_ts = ts;
        self.raws.push(
            RawRow {
                event_id: ev.meta.id,
                ts,
                server_name: ev.server_name,
                kind: ev.kind,
                bot,
                bytes_delta: delta,
                user: user.clone(),
            },
        );
        let ghost new_raws = self.raws@;
        assert(new_raws.drop_last() =~= old_raws);
        assert(new_raws.last() == row);
        if !content {
            assert(bucket_keys(new_raws) == bucket_keys(old_raws));
            assert forall|i: int| 0 <= i < self.buckets@.len() implies (
            #[trigger] self.buckets@[i]).acc@ == bucket_tally(
                new_raws,
                self.buckets@[i].grain,
                self.buckets@[i].start as int,
            ) by {
                assert(!in_bucket(row, self.buckets@[i].grain, self.buckets@[i].start as int));
            }
            assert forall|i: int| 0 <= i < new_raws.len() implies (
            #[trigger] new_raws[i]).ts.valid() by {
                if i < old_raws.len() {
                    assert(new_raws[i] == old_raws[i]);
                }
            }
            return None;
        }
        let k0 = bucket_key(&ts, G_MINUTE);
        let k1 = bucket_key(&ts, G_HOUR);
        let k2 = bucket_key(&ts, G_DAY);
        proof {
            lemma_tally_nonneg(old_raws, G_MINUTE, k0 as int);
            assert(bucket_tally(new_raws, G_MINUTE, k0 as int) == bucket_tally(
                old_raws,
                G_MINUTE,
                k0 as int,
            ).plus(row_tally(row)));
            assert(bucket_tally(new_raws, G_MINUTE, bucket_start(ts.secs as int, G_MINUTE)).fits());
        }
        let c = contribution(is_new, bot, delta);
        assert(c@ == row_tally(row));
        let ghost keys0 = bucket_keys(old_raws);
        let ghost e0 = self.buckets@;
        proof {
            assert(new_raws =~= old_raws.push(row_of(&ev, ts)));
            assert(bucket_tally(old_raws.push(row_of(&ev, ts)), G_MINUTE, bucket_start(ts.secs as int, G_MINUTE)).fits());
            assert(bucket_tally(old_raws.push(row_of(&ev, ts)), G_HOUR, bucket_start(ts.secs as int, G_HOUR)).fits());
            assert(bucket_tally(old_raws.push(row_of(&ev, ts)), G_DAY, bucket_start(ts.secs as int, G_DAY)).fits());
            lemma_bucket_keys_shape(old_raws);
            assert forall|i: int| 0 <= i < e0.len() implies (#[trigger] e0[i]).acc@.fits()
                && (in_bucket(row, e0[i].grain, e0[i].start as int) ==> e0[i].acc@.plus(c@).fits()) by {
                let e = e0[i];
                assert(keys_of(e0)[i] == (e.grain, e.start as int));
                assert(keys0[i].0 < 3);
                lemma_tally_nonneg(old_raws, e.grain, e.start as int);
                lemma_tally_nonneg(new_raws, e.grain, e.start as int);
            }
        }
        add_to_bucket(&mut self.buckets, G_MINUTE, k0, c);
        let ghost e1 = self.buckets@;
        proof {
            lemma_add_key(keys0, (G_MINUTE, k0 as int));
            assert forall|i: int| 0 <= i < e1.len() implies (#[trigger] e1[i]).acc@.fits()
                && (e1[i].grain == G_HOUR && e1[i].start == k1 ==> e1[i].acc@.plus(c@).fits()) by {
                if i < e0.len() {
                    assert(e0[i].grain == G_MINUTE && e0[i].start == k0 ==> in_bucket(row, e0[i].grain, e0[i].start as int));
                    assert(e0[i].grain == G_HOUR && e0[i].start == k1 ==> in_bucket(row, e0[i].grain, e0[i].start as int));
                }
            }
        }
        add_to_bucket(&mut self.buckets, G_HOUR, k1, c);
        let ghost e2 = self.buckets@;
        proof {
            lemma_add_key(add_key(keys0, (G_MINUTE, k0 as int)), (G_HOUR, k1 as int));
            assert forall|i: int| 0 <= i < e2.len() implies (#[trigger] e2[i]).acc@.fits()
                && (e2[i].grain == G_DAY && e2[i].start == k2 ==> e2[i].acc@.plus(c@).fits()) by {
                if i < e0.len() {
                    assert(e1[i].grain == e0[i].grain);
                    assert(e0[i].grain == G_DAY && e0[i].start == k2 ==> in_bucket(row, e0[i].grain, e0[i].start as int));
                } else if i < e1.len() {
                    assert(e1[i].grain == G_MINUTE);
                }
            }
        }
        add_to_bucket(&mut self.buckets, G_DAY, k2, c);
        let ghost e3 = self.buckets@;
        proof {
            let ka = add_key(keys0, (G_MINUTE, k0 as int));
            let kb = add_key(ka, (G_HOUR, k1 as int));
            lemma_add_key(kb, (G_DAY, k2 as int));
            assert(keys_of(e3) == bucket_keys(new_raws));
            assert forall|i: int| 0 <= i < e3.len() implies (#[trigger] e3[i]).acc@ == bucket_tally(
                new_raws,
                e3[i].grain,
                e3[i].start as int,
            ) by {
                let e = e3[i];
                assert(keys_of(e3)[i] == (e.grain, e.start as int));
                if i < e0.len() {
                    assert(e.grain == e0[i].grain && e.start == e0[i].start);
                    assert(keys_of(e0)[i] == (e.grain, e.start as int));
                    assert(keys0[i].0 < 3);
                } else {
                    let key = (e.grain, e.start as int);
                    assert(!keys0.contains(key)) by {
                        lemma_bucket_keys_shape(new_raws);
                        if keys0.contains(key) {
                            let j = choose|j: int| 0 <= j < keys0.len() && keys0[j] == key;
                            assert(keys_of(e3)[j] == key);
                            assert(keys_of(e3)[j] == keys_of(e3)[i]);
                        }
                    }
                    if i < e1.len() {
                        assert(e == e1[i]);
                        assert(e.grain == G_MINUTE && e.start == k0);
                    } else if i < e2.len() {
                        assert(e == e2[i]);
                        assert(e.grain == G_HOUR && e.start == k1);
                    } else {
                        assert(e.grain == G_DAY && e.start == k2);
                    }
                    lemma_untouched_bucket_is_zero(old_raws, e.grain, e.start as int);
                }
            }
            assert forall|i: int| 0 <= i < new_raws.len() implies (#[trigger] new_raws[i]).ts.valid() by {
                if i < old_raws.len() {
                    assert(new_raws[i] == old_raws[i]);
                }
            }
        }
        if named {
            let mut bs: Vec<(u8, i64)> = Vec::new();
            bs.push((G_MINUTE, k0));
            bs.push((G_HOUR, k1));
            bs.push((G_DAY, k2));
            assert(bs@ =~= seq![(G_MINUTE, k0), (G_HOUR, k1), (G_DAY, k2)]);
            Some(EditorSighting { user, buckets: bs })
        } else {
            None
        }
    }

    /// Whether the event, timed at `ts`, can be counted without a counter
    /// leaving the 64-bit range.
    pub fn admits(&self, ev: &RcEvent, ts: &Timestamp) -> (r: bool)
        requires
            self.wf(),
            ts.valid(),
        ensures
            r == admits(self@.raws, ev, *ts),
    {
        let ghost raws = self@.raws;
        let ghost row = row_of(ev, *ts);
        let ghost new_raws = raws.push(row);
        proof {
            assert(new_raws.drop_last() =~= raws);
        }
        if !delta_in_range(&ev.kind, &ev.length) {
            return false;
        }
        if !is_content(&ev.kind) {
            proof {
                assert forall|g: u8| g < 3 implies #[trigger] bucket_tally(new_raws, g, bucket_start(ts.secs as int, g)).fits() by {
                    self.lemma_tally_fits(g, bucket_start(ts.secs as int, g));
                }
            }
            return true;
        }
        let delta = bytes_delta(&ev.kind, &ev.length);
        let is_new = same_text(&ev.kind, "new");
        if delta == Some(i64::MIN) {
            proof {
                self.lemma_tally_fits(G_MINUTE, bucket_start(ts.secs as int, G_MINUTE));
                lemma_tally_nonneg(raws, G_MINUTE, bucket_start(ts.secs as int, G_MINUTE));
                assert(!bucket_tally(new_raws, G_MINUTE, bucket_start(ts.secs as int, G_MINUTE)).fits());
            }
            return false;
        }
        let c = contribution(is_new, ev.bot, delta);
        assert(c@ == row_tally(row));
        let mut g: u8 = 0;
        while g < 3
            invariant
                g <= 3,
                self.wf(),
                ts.valid(),
                c@ == row_tally(row),
                c@.fits(),
                self@.raws == raws,
                new_raws == raws.push(row),
                row == row_of(ev, *ts),
                new_raws.drop_last() == raws,
                is_content_kind(row.kind@),
                row.ts == *ts,
                forall|h: u8| h < g ==> #[trigger] bucket_tally(new_raws, h, bucket_start(ts.secs as int, h)).fits(),
            decreases 3 - g,
        {
            let key = bucket_key(ts, g);
            let ghost t_new = bucket_tally(new_raws, g, key as int);
            assert(in_bucket(row, g, key as int));
            assert(t_new == bucket_tally(raws, g, key as int).plus(row_tally(row)));
            match self.bucket(g, key) {
                Some(acc) => {
                    proof {
                        lemma_tally_nonneg(raws, g, key as int);
                        self.lemma_tally_fits(g, key as int);
                    }
                    if !acc.sum_fits(c) {
                        assert(!bucket_tally(raws.push(row_of(ev, *ts)), g, bucket_start(ts.secs as int, g)).fits());
                        return false;
                    }
                },
                None => {
                    proof {
                        lemma_untouched_bucket_is_zero(raws, g, key as int);
                    }
                },
            }
            g = g + 1;
        }
        true
    }

    /// The totals rows of the batch at one grain.
    pub fn totals_rows(&self, grain: u8) -> (out: Vec<TotalsRow>)
        requires
            self.wf(),
        ensures
            out@ == grain_totals(self@.raws, grain),
    {
        let mut out: Vec<TotalsRow> = Vec::new();
        let n = self.buckets.len();
        let ghost keys = keys_of(self.buckets@);
        proof {
            assert(keys.take(0) =~= Seq::<(u8, int)>::empty());
        }
        for i in 0..n
            invariant
                n == self.buckets@.len(),
                keys == keys_of(self.buckets@),
                self.wf(),
                out@ == totals_for(keys.take(i as int), self@.raws, grain),
        {
            let e = self.buckets[i];
            proof {
                assert(keys.take(i + 1).drop_last() =~= keys.take(i as int));
                assert(keys.take(i + 1).last() == (e.grain, e.start as int));
            }
            if e.grain == grain {
                out.push(TotalsRow { grain, bucket_start: e.start, counters: e.acc });
                proof {
                    assert(counters_of(e.acc@) == e.acc);
                }
            }
        }
        proof {
            assert(keys.take(n as int) =~= keys);
        }
        out
    }

    /// The id of the batch's last event.
    pub fn last_event_id(&self) -> (r: &String)
        ensures
            r@ == self@.last_event_id,
    {
        &self.last_event_id
    }

    /// The time of the batch's last event.
    pub fn last_event_ts(&self) -> (r: Timestamp)
        ensures
            r == self@.last_event_ts,
    {
        self.last_event_ts
    }

    /// The raw rows of the batch, in arrival order.
    pub fn raws(&self) -> (r: &Vec<RawRow>)
        ensures
            r@ == self@.raws,
    {
        &self.raws
    }

    /// The buckets a well-formed buffer's rows touch start at 64-bit seconds.
    pub proof fn lemma_keys_in_range(&self)
        requires
            self.wf(),
        ensures
            forall|j: int|
                0 <= j < bucket_keys(self@.raws).len() ==> i64::MIN <= (
                #[trigger] bucket_keys(self@.raws)[j]).1 <= i64::MAX,
    {
        assert forall|j: int| 0 <= j < bucket_keys(self@.raws).len() implies i64::MIN <= (
        #[trigger] bucket_keys(self@.raws)[j]).1 <= i64::MAX by {
            assert(keys_of(self.buckets@)[j] == (self.buckets@[j].grain, self.buckets@[j].start as int));
        }
    }

    /// What a well-formed buffer guarantees of its view: valid instants, and
    /// bucket counters that fit 64 bits at every grain (a grain code past the
    /// day's counts as a day).
    pub proof fn lemma_wf_facts(&self)
        requires
            self.wf(),
        ensures
            forall|i: int| 0 <= i < self@.raws.len() ==> (#[trigger] self@.raws[i]).ts.valid(),
            self@.last_event_ts.valid(),
            forall|g: u8, k: int| #[trigger] bucket_tally(self@.raws, g, k).fits(),
    {
        assert forall|g: u8, k: int| #[trigger] bucket_tally(self@.raws, g, k).fits() by {
            if g < 3 {
                self.lemma_tally_fits(g, k);
            } else {
                self.lemma_tally_fits(G_DAY, k);
                lemma_grain_alias(self@.raws, g, k);
            }
        }
    }

    /// Every bucket counter of the batch fits 64 bits.
    proof fn lemma_tally_fits(&self, grain: u8, start: int)
        requires
            self.wf(),
        ensures
            grain < 3 ==> bucket_tally(self@.raws, grain, start).fits(),
    {
        lemma_tally_nonneg(self@.raws, grain, start);
        if grain < 3 {
            let ks = keys_of(self.buckets@);
            if ks.contains((grain, start)) {
                let j = choose|j: int| 0 <= j < ks.len() && ks[j] == (grain, start);
                assert(self.buckets@[j].grain == grain && self.buckets@[j].start as int == start);
            } else {
                lemma_untouched_bucket_is_zero(self@.raws, grain, start);
            }
        }
    }

    /// Takes an event into the batch (the daemon's `push`): its `meta.dt` is
    /// parsed as RFC 3339 and taken to UTC; a text that does not parse is
    /// refused with `BadTimestamp` and the buffer is left as it was.
    pub fn push(&mut self, ev: RcEvent) -> (r: Result<Option<EditorSighting>, PushError>)
        requires
            old(self).wf(),
            rfc3339_instant(ev.meta.dt@) matches Some((s, n)) ==> admits(
                old(self)@.raws,
                &ev,
                Timestamp { secs: s, nanos: n },
            ),
        ensures
            final(self).wf(),
            match rfc3339_instant(ev.meta.dt@) {
                None => {
                    &&& r matches Err(PushError::BadTimestamp(dt)) && dt@ == ev.meta.dt@
                    &&& final(self)@ == old(self)@
                },
                Some((s, n)) => {
                    let ts = Timestamp { secs: s, nanos: n };
                    &&& r matches Ok(sighting) && sighting_matches(sighting, &ev, ts)
                    &&& final(self)@.raws == old(self)@.raws.push(row_of(&ev, ts))
                    &&& final(self)@.last_event_id == ev.meta.id@
                    &&& final(self)@.last_event_ts == ts
                },
            },
    {
        match parse_rfc3339_utc(ev.meta.dt.as_str()) {
            Ok(ts) => Ok(self.push_parsed(ev, ts)),
            Err(_) => Err(PushError::BadTimestamp(ev.meta.dt)),
        }
    }

    /// `push`, but an event that would take a bucket counter out of the
    /// 64-bit range is refused with `CounterOverflow`, the buffer left as it
    /// was.
    pub fn push_checked(&mut self, ev: RcEvent) -> (r: Result<Option<EditorSighting>, PushError>)
        requires
            old(self).wf(),
        ensures
            final(self).wf(),
            match rfc3339_instant(ev.meta.dt@) {
                None => {
                    &&& r matches Err(PushError::BadTimestamp(dt)) && dt@ == ev.meta.dt@
                    &&& final(self)@ == old(self)@
                },
                Some((s, n)) => {
                    let ts = Timestamp { secs: s, nanos: n };
                    if admits(old(self)@.raws, &ev, ts) {
                        &&& r matches Ok(sighting) && sighting_matches(sighting, &ev, ts)
                        &&& final(self)@.raws == old(self)@.raws.push(row_of(&ev, ts))
                        &&& final(self)@.last_event_id == ev.meta.id@
                        &&& final(self)@.last_event_ts == ts
                    } else {
                        &&& r matches Err(PushError::CounterOverflow)
                        &&& final(self)@ == old(self)@
                    }
                },
            },
    {
        match parse_rfc3339_utc(ev.meta.dt.as_str()) {
            Ok(ts) => {
                if !self.admits(&ev, &ts) {
                    return Err(PushError::CounterOverflow);
                }
                self.push(ev)
            },
            Err(_) => Err(PushError::BadTimestamp(ev.meta.dt)),
        }
    }

    /// Empties the batch after it was committed: raw rows and bucket
    /// counters go; the last event stays.
    pub fn clear_batch(&mut self)
        requires
            old(self).wf(),
        ensures
            final(self).wf(),
            final(self)@.raws == Seq::<RawRow>::empty(),
            final(self)@.last_event_id == old(self)@.last_event_id,
            final(self)@.last_event_ts == old(self)@.last_event_ts,
    {
        self.raws.clear();
        self.buckets.clear();
        assert(keys_of(self.buckets@) =~= Seq::<(u8, int)>::empty());
    }
}

} // verus!
