use vstd::prelude::*;

use crate::event::is_content_kind;
use crate::time::{bucket_start, Timestamp, G_DAY, G_HOUR, G_MINUTE};

verus! {

/// The five counters of a bucket (or of one wiki within a bucket).
#[derive(Clone, Copy, Debug, PartialEq, Eq, Structural)]
pub struct Counters {
    pub edits: i64,
    pub new_pages: i64,
    pub bot_edits: i64,
    pub bytes_added: i64,
    pub bytes_removed: i64,
}

/// The accumulator of one bucket.
pub type BucketAcc = Counters;

/// The batch-local counters of one wiki in one bucket.
pub type WikiDelta = Counters;

/// The five counters over the integers.
pub struct Tally {
    pub edits: int,
    pub new_pages: int,
    pub bot_edits: int,
    pub bytes_added: int,
    pub bytes_removed: int,
}

impl Tally {
    pub open spec fn zero() -> Tally {
        Tally { edits: 0, new_pages: 0, bot_edits: 0, bytes_added: 0, bytes_removed: 0 }
    }

    pub open spec fn plus(self, o: Tally) -> Tally {
        Tally {
            edits: self.edits + o.edits,
            new_pages: self.new_pages + o.new_pages,
            bot_edits: self.bot_edits + o.bot_edits,
            bytes_added: self.bytes_added + o.bytes_added,
            bytes_removed: self.bytes_removed + o.bytes_removed,
        }
    }

    /// Counter-wise at most `o`.
    pub open spec fn le(self, o: Tally) -> bool {
        &&& self.edits <= o.edits
        &&& self.new_pages <= o.new_pages
        &&& self.bot_edits <= o.bot_edits
        &&& self.bytes_added <= o.bytes_added
        &&& self.bytes_removed <= o.bytes_removed
    }

    /// Every counter is nonnegative.
    pub open spec fn nonneg(self) -> bool {
        &&& 0 <= self.edits
        &&& 0 <= self.new_pages
        &&& 0 <= self.bot_edits
        &&& 0 <= self.bytes_added
        &&& 0 <= self.bytes_removed
    }

    /// Every counter is nonnegative and fits a 64-bit signed column.
    pub open spec fn fits(self) -> bool {
        &&& 0 <= self.edits <= i64::MAX
        &&& 0 <= self.new_pages <= i64::MAX
        &&& 0 <= self.bot_edits <= i64::MAX
        &&& 0 <= self.bytes_added <= i64::MAX
        &&& 0 <= self.bytes_removed <= i64::MAX
    }
}

impl View for Counters {
    type V = Tally;

    open spec fn view(&self) -> Tally {
        Tally {
            edits: self.edits as int,
            new_pages: self.new_pages as int,
            bot_edits: self.bot_edits as int,
            bytes_added: self.bytes_added as int,
            bytes_removed: self.bytes_removed as int,
        }
    }
}

impl Counters {
    /// Counter-wise sum.
    pub fn add(self, o: Counters) -> (c: Counters)
        requires
            self@.fits(),
            o@.fits(),
            self@.plus(o@).fits(),
        ensures
            c@ == self@.plus(o@),
    {
        Counters {
            edits: self.edits + o.edits,
            new_pages: self.new_pages + o.new_pages,
            bot_edits: self.bot_edits + o.bot_edits,
            bytes_added: self.bytes_added + o.bytes_added,
            bytes_removed: self.bytes_removed + o.bytes_removed,
        }
    }

    /// Whether the counter-wise sum of two fitting tallies still fits.
    pub fn sum_fits(self, o: Counters) -> (r: bool)
        requires
            self@.fits(),
            o@.fits(),
        ensures
            r == self@.plus(o@).fits(),
    {
        self.edits <= i64::MAX - o.edits && self.new_pages <= i64::MAX - o.new_pages
            && self.bot_edits <= i64::MAX - o.bot_edits && self.bytes_added <= i64::MAX
            - o.bytes_added && self.bytes_removed <= i64::MAX - o.bytes_removed
    }
}

/// One event as it is kept in the batch's raw window.
pub struct RawRow {
    pub event_id: String,
    pub ts: Timestamp,
    pub server_name: String,
    pub kind: String,
    pub bot: bool,
    pub bytes_delta: Option<i64>,
    pub user: String,
}

/// What one content edit adds to the counters of its bucket: one edit; one
/// new page if its type is `new`; one bot edit if it is a bot's; its byte
/// delta to `bytes_added` when positive, its negation to `bytes_removed`
/// otherwise.
pub open spec fn row_tally(r: RawRow) -> Tally {
    contribution_tally(r.kind@ == "new"@, r.bot, r.bytes_delta)
}

/// What one content edit adds: one edit, one new page if `is_new`, one bot
/// edit if `bot`, and its byte delta split into its positive and negative
/// halves.
pub open spec fn contribution_tally(is_new: bool, bot: bool, delta: Option<i64>) -> Tally {
    Tally {
        edits: 1,
        new_pages: if is_new { 1 } else { 0 },
        bot_edits: if bot { 1 } else { 0 },
        bytes_added: match delta {
            Some(d) => if d > 0 { d as int } else { 0 },
            None => 0,
        },
        bytes_removed: match delta {
            Some(d) => if d > 0 { 0 } else { -d },
            None => 0,
        },
    }
}

/// The counters that one content edit adds.
pub fn contribution(is_new: bool, bot: bool, delta: Option<i64>) -> (c: Counters)
    requires
        delta != Some(i64::MIN),
    ensures
        c@ == contribution_tally(is_new, bot, delta),
{
    Counters {
        edits: 1,
        new_pages: if is_new {
            1
        } else {
            0
        },
        bot_edits: if bot {
            1
        } else {
            0
        },
        bytes_added: match delta {
            Some(d) => if d > 0 {
                d
            } else {
                0
            },
            None => 0,
        },
        bytes_removed: match delta {
            Some(d) => if d > 0 {
                0
            } else {
                -d
            },
            None => 0,
        },
    }
}

/// The row is a content edit that falls in the bucket `(grain, start)`.
pub open spec fn in_bucket(r: RawRow, grain: u8, start: int) -> bool {
    is_content_kind(r.kind@) && bucket_start(r.ts.secs as int, grain) == start
}

/// The counters of bucket `(grain, start)` over the rows: the sum of
/// `row_tally` over the content edits that fall in it.
pub open spec fn bucket_tally(rows: Seq<RawRow>, grain: u8, start: int) -> Tally
    decreases rows.len(),
{
    if rows.len() == 0 {
        Tally::zero()
    } else {
        let prev = bucket_tally(rows.drop_last(), grain, start);
        if in_bucket(rows.last(), grain, start) {
            prev.plus(row_tally(rows.last()))
        } else {
            prev
        }
    }
}

/// The counters of wiki `server` in bucket `(grain, start)` over the rows.
pub open spec fn wiki_tally(rows: Seq<RawRow>, grain: u8, start: int, server: Seq<char>) -> Tally
    decreases rows.len(),
{
    if rows.len() == 0 {
        Tally::zero()
    } else {
        let prev = wiki_tally(rows.drop_last(), grain, start, server);
        let r = rows.last();
        if in_bucket(r, grain, start) && r.server_name@ == server {
            prev.plus(row_tally(r))
        } else {
            prev
        }
    }
}

/// `keys` with `k` appended unless it is already there.
pub open spec fn add_key<K>(keys: Seq<K>, k: K) -> Seq<K> {
    if keys.contains(k) {
        keys
    } else {
        keys.push(k)
    }
}

/// The buckets that the rows touch, in the order in which they are first
/// touched: each content edit touches its minute, hour and day bucket.
pub open spec fn bucket_keys(rows: Seq<RawRow>) -> Seq<(u8, int)>
    decreases rows.len(),
{
    if rows.len() == 0 {
        Seq::empty()
    } else {
        let prev = bucket_keys(rows.drop_last());
        let r = rows.last();
        if is_content_kind(r.kind@) {
            let s = r.ts.secs as int;
            add_key(
                add_key(
                    add_key(prev, (G_MINUTE, bucket_start(s, G_MINUTE))),
                    (G_HOUR, bucket_start(s, G_HOUR)),
                ),
                (G_DAY, bucket_start(s, G_DAY)),
            )
        } else {
            prev
        }
    }
}

/// The (bucket, wiki) pairs that the rows touch at one grain, in the order
/// in which they are first touched.
pub open spec fn wiki_keys(rows: Seq<RawRow>, grain: u8) -> Seq<(int, Seq<char>)>
    decreases rows.len(),
{
    if rows.len() == 0 {
        Seq::empty()
    } else {
        let prev = wiki_keys(rows.drop_last(), grain);
        let r = rows.last();
        if is_content_kind(r.kind@) {
            add_key(prev, (bucket_start(r.ts.secs as int, grain), r.server_name@))
        } else {
            prev
        }
    }
}

pub proof fn lemma_add_key<K>(keys: Seq<K>, k: K)
    ensures
        keys.no_duplicates() ==> add_key(keys, k).no_duplicates(),
        add_key(keys, k).contains(k),
        forall|x: K| #[trigger] add_key(keys, k).contains(x) <==> (keys.contains(x) || x == k),
        add_key(keys, k).len() >= keys.len(),
        forall|i: int| 0 <= i < keys.len() ==> #[trigger] add_key(keys, k)[i] == keys[i],
{
    if !keys.contains(k) {
        let n = keys.push(k);
        assert(n[keys.len() as int] == k);
        assert forall|x: K| #[trigger] n.contains(x) <==> (keys.contains(x) || x == k) by {
            if n.contains(x) {
                let i = choose|i: int| 0 <= i < n.len() && n[i] == x;
                if i < keys.len() {
                    assert(keys[i] == x);
                }
            }
            if keys.contains(x) {
                let i = choose|i: int| 0 <= i < keys.len() && keys[i] == x;
                assert(n[i] == x);
            }
        }
    }
}

/// The keys of `bucket_keys` hold no duplicates and only the three grains.
pub proof fn lemma_bucket_keys_shape(rows: Seq<RawRow>)
    ensures
        bucket_keys(rows).no_duplicates(),
        forall|i: int| 0 <= i < bucket_keys(rows).len() ==> #[trigger] bucket_keys(rows)[i].0 < 3,
    decreases rows.len(),
{
    if rows.len() > 0 {
        lemma_bucket_keys_shape(rows.drop_last());
        let prev = bucket_keys(rows.drop_last());
        let r = rows.last();
        if is_content_kind(r.kind@) {
            let s = r.ts.secs as int;
            let k1 = add_key(prev, (G_MINUTE, bucket_start(s, G_MINUTE)));
            let k2 = add_key(k1, (G_HOUR, bucket_start(s, G_HOUR)));
            lemma_add_key(prev, (G_MINUTE, bucket_start(s, G_MINUTE)));
            lemma_add_key(k1, (G_HOUR, bucket_start(s, G_HOUR)));
            lemma_add_key(k2, (G_DAY, bucket_start(s, G_DAY)));
            let k3 = add_key(k2, (G_DAY, bucket_start(s, G_DAY)));
            assert forall|i: int| 0 <= i < k3.len() implies #[trigger] k3[i].0 < 3 by {
                assert(k3.contains(k3[i]));
                if k2.contains(k3[i]) {
                    let j = choose|j: int| 0 <= j < k2.len() && k2[j] == k3[i];
                    if k1.contains(k2[j]) {
                        let m = choose|m: int| 0 <= m < k1.len() && k1[m] == k2[j];
                        if prev.contains(k1[m]) {
                            let p = choose|p: int| 0 <= p < prev.len() && prev[p] == k1[m];
                            assert(prev[p].0 < 3);
                        }
                    }
                }
            }
        }
    }
}

/// A bucket that no content edit touches has zero counters.
pub proof fn lemma_untouched_bucket_is_zero(rows: Seq<RawRow>, grain: u8, start: int)
    requires
        !bucket_keys(rows).contains((grain, start)),
        grain < 3,
    ensures
        bucket_tally(rows, grain, start) == Tally::zero(),
    decreases rows.len(),
{
    if rows.len() > 0 {
        let prev = bucket_keys(rows.drop_last());
        let r = rows.last();
        if is_content_kind(r.kind@) {
            let s = r.ts.secs as int;
            let k1 = add_key(prev, (G_MINUTE, bucket_start(s, G_MINUTE)));
            let k2 = add_key(k1, (G_HOUR, bucket_start(s, G_HOUR)));
            lemma_add_key(prev, (G_MINUTE, bucket_start(s, G_MINUTE)));
            lemma_add_key(k1, (G_HOUR, bucket_start(s, G_HOUR)));
            lemma_add_key(k2, (G_DAY, bucket_start(s, G_DAY)));
        }
        lemma_untouched_bucket_is_zero(rows.drop_last(), grain, start);
    }
}

/// A row's contribution is nonnegative.
pub proof fn lemma_row_tally_nonneg(r: RawRow)
    ensures
        row_tally(r).nonneg(),
{
}

/// A wiki's counters in a bucket are at most the bucket's, and nonnegative.
pub proof fn lemma_wiki_le_bucket(rows: Seq<RawRow>, grain: u8, start: int, server: Seq<char>)
    ensures
        wiki_tally(rows, grain, start, server).le(bucket_tally(rows, grain, start)),
        wiki_tally(rows, grain, start, server).nonneg(),
        bucket_tally(rows, grain, start).nonneg(),
    decreases rows.len(),
{
    if rows.len() > 0 {
        lemma_wiki_le_bucket(rows.drop_last(), grain, start, server);
    }
}

/// The counters of a bucket over a prefix of the rows are at most those over
/// all of them.
pub proof fn lemma_prefix_le(rows: Seq<RawRow>, n: int, grain: u8, start: int)
    requires
        0 <= n <= rows.len(),
    ensures
        bucket_tally(rows.take(n), grain, start).le(bucket_tally(rows, grain, start)),
    decreases rows.len() - n,
{
    if n < rows.len() {
        lemma_prefix_le(rows, n + 1, grain, start);
        let p = rows.take(n + 1);
        assert(p.drop_last() =~= rows.take(n));
        lemma_wiki_le_bucket(p.drop_last(), grain, start, Seq::empty());
    } else {
        assert(rows.take(n) =~= rows);
    }
}

/// The keys of `wiki_keys` hold no duplicates.
pub proof fn lemma_wiki_keys_shape(rows: Seq<RawRow>, grain: u8)
    ensures
        wiki_keys(rows, grain).no_duplicates(),
    decreases rows.len(),
{
    if rows.len() > 0 {
        lemma_wiki_keys_shape(rows.drop_last(), grain);
        let r = rows.last();
        lemma_add_key(wiki_keys(rows.drop_last(), grain), (bucket_start(r.ts.secs as int, grain), r.server_name@));
    }
}

/// A (bucket, wiki) pair that no content edit touches has zero counters.
pub proof fn lemma_untouched_wiki_is_zero(rows: Seq<RawRow>, grain: u8, start: int, server: Seq<char>)
    requires
        !wiki_keys(rows, grain).contains((start, server)),
    ensures
        wiki_tally(rows, grain, start, server) == Tally::zero(),
    decreases rows.len(),
{
    if rows.len() > 0 {
        let r = rows.last();
        if is_content_kind(r.kind@) {
            lemma_add_key(wiki_keys(rows.drop_last(), grain), (bucket_start(r.ts.secs as int, grain), r.server_name@));
        }
        lemma_untouched_wiki_is_zero(rows.drop_last(), grain, start, server);
    }
}

/// Every wiki named by `wiki_keys` is the wiki of some row.
pub proof fn lemma_wiki_key_names(rows: Seq<RawRow>, grain: u8)
    ensures
        forall|k: (int, Seq<char>)|
            #[trigger] wiki_keys(rows, grain).contains(k) ==> exists|i: int|
                0 <= i < rows.len() && (#[trigger] rows[i]).server_name@ == k.1,
    decreases rows.len(),
{
    if rows.len() > 0 {
        let prev = rows.drop_last();
        lemma_wiki_key_names(prev, grain);
        let r = rows.last();
        let rk = (bucket_start(r.ts.secs as int, grain), r.server_name@);
        lemma_add_key(wiki_keys(prev, grain), rk);
        assert forall|k: (int, Seq<char>)| #[trigger] wiki_keys(rows, grain).contains(k) implies exists|i: int|
            0 <= i < rows.len() && (#[trigger] rows[i]).server_name@ == k.1 by {
            if wiki_keys(prev, grain).contains(k) {
                let i = choose|i: int| 0 <= i < prev.len() && (#[trigger] prev[i]).server_name@ == k.1;
                assert(rows[i] == prev[i]);
            } else {
                assert(rows[rows.len() - 1] == r);
            }
        }
    }
}

} // verus!
