use vstd::prelude::*;

use crate::buffer::row_of;
use crate::event::{is_content_kind, RcEvent};
use crate::tally::{
    add_key, bucket_keys, bucket_tally, in_bucket, lemma_add_key, lemma_wiki_le_bucket, row_tally,
    wiki_keys, wiki_tally, RawRow, Tally,
};
use crate::time::{bucket_start, Timestamp, G_DAY, G_HOUR, G_MINUTE};
use crate::wiki::{wiki_deltas_match, wiki_entry_keys, WikiDeltaEntry};

verus! {

/// Sum of `row_tally` over the rows that `sel` picks.
pub open spec fn sel_tally(rows: Seq<RawRow>, sel: spec_fn(RawRow) -> bool) -> Tally
    decreases rows.len(),
{
    if rows.len() == 0 {
        Tally::zero()
    } else {
        let prev = sel_tally(rows.drop_last(), sel);
        if sel(rows.last()) {
            prev.plus(row_tally(rows.last()))
        } else {
            prev
        }
    }
}

proof fn lemma_bucket_as_sel(rows: Seq<RawRow>, grain: u8, start: int, sel: spec_fn(RawRow) -> bool)
    requires
        forall|r: RawRow| #[trigger] sel(r) == in_bucket(r, grain, start),
    ensures
        bucket_tally(rows, grain, start) == sel_tally(rows, sel),
    decreases rows.len(),
{
    if rows.len() > 0 {
        lemma_bucket_as_sel(rows.drop_last(), grain, start, sel);
        assert(sel(rows.last()) == in_bucket(rows.last(), grain, start));
    }
}

proof fn lemma_wiki_as_sel(
    rows: Seq<RawRow>,
    grain: u8,
    start: int,
    server: Seq<char>,
    sel: spec_fn(RawRow) -> bool,
)
    requires
        forall|r: RawRow| #[trigger] sel(r) == (in_bucket(r, grain, start) && r.server_name@ == server),
    ensures
        wiki_tally(rows, grain, start, server) == sel_tally(rows, sel),
    decreases rows.len(),
{
    if rows.len() > 0 {
        lemma_wiki_as_sel(rows.drop_last(), grain, start, server, sel);
        assert(sel(rows.last()) == (in_bucket(rows.last(), grain, start) && rows.last().server_name@
            == server));
    }
}

proof fn lemma_sel_remove(rows: Seq<RawRow>, i: int, sel: spec_fn(RawRow) -> bool)
    requires
        0 <= i < rows.len(),
    ensures
        sel_tally(rows, sel) == if sel(rows[i]) {
            sel_tally(rows.remove(i), sel).plus(row_tally(rows[i]))
        } else {
            sel_tally(rows.remove(i), sel)
        },
    decreases rows.len(),
{
    if i == rows.len() - 1 {
        assert(rows.remove(i) =~= rows.drop_last());
    } else {
        let p = rows.drop_last();
        lemma_sel_remove(p, i, sel);
        assert(rows.remove(i).drop_last() =~= p.remove(i));
        assert(rows.remove(i).last() == rows.last());
        assert(p[i] == rows[i]);
    }
}

/// The tally over rows depends only on which rows there are, not on their order.
proof fn lemma_sel_perm(rows1: Seq<RawRow>, rows2: Seq<RawRow>, sel: spec_fn(RawRow) -> bool)
    requires
        rows1.to_multiset() == rows2.to_multiset(),
    ensures
        sel_tally(rows1, sel) == sel_tally(rows2, sel),
    decreases rows1.len(),
{
    rows1.to_multiset_ensures();
    rows2.to_multiset_ensures();
    if rows1.len() == 0 {
        assert(rows2.len() == 0);
    } else {
        let p = rows1.drop_last();
        let r = rows1.last();
        assert(p.push(r) =~= rows1);
        p.to_multiset_ensures();
        assert(rows1.to_multiset() =~= p.to_multiset().insert(r));
        assert(rows1.contains(r)) by {
            assert(rows1[rows1.len() - 1] == r);
        }
        assert(rows1.to_multiset().count(r) > 0);
        assert(rows2.to_multiset().count(r) > 0);
        assert(rows2.contains(r));
        let i = choose|i: int| 0 <= i < rows2.len() && rows2[i] == r;
        let q = rows2.remove(i);
        assert(q.to_multiset() =~= rows2.to_multiset().remove(r));
        assert(p.to_multiset() =~= p.to_multiset().insert(r).remove(r));
        lemma_sel_perm(p, q, sel);
        lemma_sel_remove(rows2, i, sel);
    }
}

/// A row of `rows1` is also a row of `rows2` when both hold the same rows.
proof fn lemma_perm_has_row(rows1: Seq<RawRow>, rows2: Seq<RawRow>, i: int) -> (j: int)
    requires
        rows1.to_multiset() == rows2.to_multiset(),
        0 <= i < rows1.len(),
    ensures
        0 <= j < rows2.len(),
        rows2[j] == rows1[i],
{
    rows1.to_multiset_ensures();
    rows2.to_multiset_ensures();
    assert(rows1.contains(rows1[i]));
    assert(rows1.to_multiset().count(rows1[i]) > 0);
    assert(rows2.to_multiset().count(rows1[i]) > 0);
    assert(rows2.contains(rows1[i]));
    choose|j: int| 0 <= j < rows2.len() && rows2[j] == rows1[i]
}

/// Law: a bucket is present in a batch exactly when some content edit of the
/// batch falls in it, and a present bucket counts at least one edit.
pub proof fn law_bucket_present_iff_touched(rows: Seq<RawRow>, grain: u8, start: int)
    ensures
        bucket_keys(rows).contains((grain, start)) <==> (grain < 3 && exists|i: int|
            0 <= i < rows.len() && in_bucket(#[trigger] rows[i], grain, start)),
        bucket_keys(rows).contains((grain, start)) ==> bucket_tally(rows, grain, start).edits >= 1,
    decreases rows.len(),
{
    if rows.len() > 0 {
        let prev = rows.drop_last();
        let r = rows.last();
        law_bucket_present_iff_touched(prev, grain, start);
        let keys = bucket_keys(prev);
        let s = r.ts.secs as int;
        let km = (G_MINUTE, bucket_start(s, G_MINUTE));
        let kh = (G_HOUR, bucket_start(s, G_HOUR));
        let kd = (G_DAY, bucket_start(s, G_DAY));
        let k1 = add_key(keys, km);
        let k2 = add_key(k1, kh);
        lemma_add_key(keys, km);
        lemma_add_key(k1, kh);
        lemma_add_key(k2, kd);
        crate::tally::lemma_bucket_keys_shape(prev);
        crate::buffer::lemma_tally_nonneg(prev, grain, start);
        if keys.contains((grain, start)) {
            let j = choose|j: int| 0 <= j < keys.len() && keys[j] == (grain, start);
            assert(keys[j].0 < 3);
        }
        assert((exists|i: int| 0 <= i < rows.len() && in_bucket(#[trigger] rows[i], grain, start))
            <==> ((exists|i: int| 0 <= i < prev.len() && in_bucket(#[trigger] prev[i], grain, start))
            || in_bucket(r, grain, start))) by {
            if exists|i: int| 0 <= i < rows.len() && in_bucket(#[trigger] rows[i], grain, start) {
                let i = choose|i: int| 0 <= i < rows.len() && in_bucket(#[trigger] rows[i], grain, start);
                if i < prev.len() {
                    assert(prev[i] == rows[i]);
                }
            }
            if exists|i: int| 0 <= i < prev.len() && in_bucket(#[trigger] prev[i], grain, start) {
                let i = choose|i: int| 0 <= i < prev.len() && in_bucket(#[trigger] prev[i], grain, start);
                assert(rows[i] == prev[i]);
            }
            assert(rows[rows.len() - 1] == r);
        }
    }
}

/// Law: a (bucket, wiki) pair is present in the per-wiki keys of a grain
/// exactly when some content edit of that wiki falls in that bucket.
pub proof fn law_wiki_key_present_iff_touched(rows: Seq<RawRow>, grain: u8, start: int, server: Seq<char>)
    ensures
        wiki_keys(rows, grain).contains((start, server)) <==> exists|i: int|
            0 <= i < rows.len() && in_bucket(#[trigger] rows[i], grain, start) && rows[i].server_name@
                == server,
    decreases rows.len(),
{
    if rows.len() > 0 {
        let prev = rows.drop_last();
        let r = rows.last();
        law_wiki_key_present_iff_touched(prev, grain, start, server);
        lemma_add_key(wiki_keys(prev, grain), (bucket_start(r.ts.secs as int, grain), r.server_name@));
        let p = |x: RawRow| in_bucket(x, grain, start) && x.server_name@ == server;
        assert((exists|i: int| 0 <= i < rows.len() && in_bucket(#[trigger] rows[i], grain, start)
            && rows[i].server_name@ == server) <==> ((exists|i: int|
            0 <= i < prev.len() && in_bucket(#[trigger] prev[i], grain, start) && prev[i].server_name@
                == server) || p(r))) by {
            if exists|i: int| 0 <= i < rows.len() && in_bucket(#[trigger] rows[i], grain, start)
                && rows[i].server_name@ == server {
                let i = choose|i: int|
                    0 <= i < rows.len() && in_bucket(#[trigger] rows[i], grain, start)
                        && rows[i].server_name@ == server;
                if i < prev.len() {
                    assert(prev[i] == rows[i]);
                }
            }
            if exists|i: int| 0 <= i < prev.len() && in_bucket(#[trigger] prev[i], grain, start)
                && prev[i].server_name@ == server {
                let i = choose|i: int|
                    0 <= i < prev.len() && in_bucket(#[trigger] prev[i], grain, start)
                        && prev[i].server_name@ == server;
                assert(rows[i] == prev[i]);
            }
            assert(rows[rows.len() - 1] == r);
        }
    }
}

/// A wiki's counters in a bucket count at least one edit when some content
/// edit of that wiki falls in that bucket.
proof fn lemma_touched_wiki_counts(rows: Seq<RawRow>, grain: u8, start: int, server: Seq<char>, i: int)
    requires
        0 <= i < rows.len(),
        in_bucket(rows[i], grain, start),
        rows[i].server_name@ == server,
    ensures
        wiki_tally(rows, grain, start, server).edits >= 1,
    decreases rows.len(),
{
    let prev = rows.drop_last();
    lemma_wiki_le_bucket(prev, grain, start, server);
    if i < rows.len() - 1 {
        assert(prev[i] == rows[i]);
        lemma_touched_wiki_counts(prev, grain, start, server, i);
    }
}

/// Law: every entry of the per-wiki deltas of a batch counts at least one
/// edit, its counters are nonnegative, and none of them exceeds the same
/// counter of its bucket's totals row.
pub proof fn law_wiki_entry_within_bucket(
    es: Seq<WikiDeltaEntry>,
    rows: Seq<RawRow>,
    grain: u8,
    j: int,
)
    requires
        wiki_deltas_match(es, rows, grain),
        0 <= j < es.len(),
    ensures
        es[j].delta@.edits >= 1,
        es[j].delta@.nonneg(),
        es[j].delta@.le(bucket_tally(rows, grain, es[j].bucket_start as int)),
{
    let start = es[j].bucket_start as int;
    let server = es[j].server_name@;
    assert(wiki_entry_keys(es)[j] == (start, server));
    assert(wiki_keys(rows, grain)[j] == (start, server));
    assert(wiki_keys(rows, grain).contains((start, server)));
    law_wiki_key_present_iff_touched(rows, grain, start, server);
    let i = choose|i: int|
        0 <= i < rows.len() && in_bucket(#[trigger] rows[i], grain, start) && rows[i].server_name@
            == server;
    lemma_touched_wiki_counts(rows, grain, start, server, i);
    lemma_wiki_le_bucket(rows, grain, start, server);
}

/// Law: the counters of every bucket, and which buckets are present, do not
/// depend on the order in which the events were taken in.
pub proof fn law_counters_order_independent(
    rows1: Seq<RawRow>,
    rows2: Seq<RawRow>,
    grain: u8,
    start: int,
)
    requires
        rows1.to_multiset() == rows2.to_multiset(),
    ensures
        bucket_tally(rows1, grain, start) == bucket_tally(rows2, grain, start),
        bucket_keys(rows1).contains((grain, start)) == bucket_keys(rows2).contains((grain, start)),
{
    let sel = |r: RawRow| in_bucket(r, grain, start);
    lemma_bucket_as_sel(rows1, grain, start, sel);
    lemma_bucket_as_sel(rows2, grain, start, sel);
    lemma_sel_perm(rows1, rows2, sel);
    law_bucket_present_iff_touched(rows1, grain, start);
    law_bucket_present_iff_touched(rows2, grain, start);
    if exists|i: int| 0 <= i < rows1.len() && in_bucket(#[trigger] rows1[i], grain, start) {
        let i = choose|i: int| 0 <= i < rows1.len() && in_bucket(#[trigger] rows1[i], grain, start);
        let j = lemma_perm_has_row(rows1, rows2, i);
        assert(in_bucket(rows2[j], grain, start));
    }
    if exists|i: int| 0 <= i < rows2.len() && in_bucket(#[trigger] rows2[i], grain, start) {
        let i = choose|i: int| 0 <= i < rows2.len() && in_bucket(#[trigger] rows2[i], grain, start);
        let j = lemma_perm_has_row(rows2, rows1, i);
        assert(in_bucket(rows1[j], grain, start));
    }
}

/// Law: the per-wiki deltas of a grain do not depend on the order of the
/// rows: the same (bucket, wiki) pairs are present, with the same counters.
pub proof fn law_wiki_deltas_order_independent(
    rows1: Seq<RawRow>,
    rows2: Seq<RawRow>,
    grain: u8,
    start: int,
    server: Seq<char>,
)
    requires
        rows1.to_multiset() == rows2.to_multiset(),
    ensures
        wiki_tally(rows1, grain, start, server) == wiki_tally(rows2, grain, start, server),
        wiki_keys(rows1, grain).contains((start, server)) == wiki_keys(rows2, grain).contains(
            (start, server),
        ),
{
    let sel = |r: RawRow| in_bucket(r, grain, start) && r.server_name@ == server;
    lemma_wiki_as_sel(rows1, grain, start, server, sel);
    lemma_wiki_as_sel(rows2, grain, start, server, sel);
    lemma_sel_perm(rows1, rows2, sel);
    law_wiki_key_present_iff_touched(rows1, grain, start, server);
    law_wiki_key_present_iff_touched(rows2, grain, start, server);
    if exists|i: int|
        0 <= i < rows1.len() && in_bucket(#[trigger] rows1[i], grain, start) && rows1[i].server_name@
            == server {
        let i = choose|i: int|
            0 <= i < rows1.len() && in_bucket(#[trigger] rows1[i], grain, start)
                && rows1[i].server_name@ == server;
        let j = lemma_perm_has_row(rows1, rows2, i);
        assert(in_bucket(rows2[j], grain, start) && rows2[j].server_name@ == server);
    }
    if exists|i: int|
        0 <= i < rows2.len() && in_bucket(#[trigger] rows2[i], grain, start) && rows2[i].server_name@
            == server {
        let i = choose|i: int|
            0 <= i < rows2.len() && in_bucket(#[trigger] rows2[i], grain, start)
                && rows2[i].server_name@ == server;
        let j = lemma_perm_has_row(rows2, rows1, i);
        assert(in_bucket(rows1[j], grain, start) && rows1[j].server_name@ == server);
    }
}

/// Law: for two batches that hold the same rows in any order, the entries
/// that `wiki_deltas` returns name the same (bucket, wiki) pairs, and a pair
/// carries the same counters in both.
pub proof fn law_wiki_delta_entries_order_independent(
    es1: Seq<WikiDeltaEntry>,
    rows1: Seq<RawRow>,
    es2: Seq<WikiDeltaEntry>,
    rows2: Seq<RawRow>,
    grain: u8,
)
    requires
        rows1.to_multiset() == rows2.to_multiset(),
        wiki_deltas_match(es1, rows1, grain),
        wiki_deltas_match(es2, rows2, grain),
    ensures
        wiki_entry_keys(es1).to_set() == wiki_entry_keys(es2).to_set(),
        forall|i: int, j: int|
            0 <= i < es1.len() && 0 <= j < es2.len() && #[trigger] wiki_entry_keys(es1)[i]
                == #[trigger] wiki_entry_keys(es2)[j] ==> es1[i].delta == es2[j].delta,
{
    assert forall|k: (int, Seq<char>)| wiki_entry_keys(es1).to_set().contains(k)
        == wiki_entry_keys(es2).to_set().contains(k) by {
        law_wiki_deltas_order_independent(rows1, rows2, grain, k.0, k.1);
    }
    assert(wiki_entry_keys(es1).to_set() =~= wiki_entry_keys(es2).to_set());
    assert forall|i: int, j: int|
        0 <= i < es1.len() && 0 <= j < es2.len() && #[trigger] wiki_entry_keys(es1)[i]
            == #[trigger] wiki_entry_keys(es2)[j] implies es1[i].delta == es2[j].delta by {
        let k = wiki_entry_keys(es1)[i];
        law_wiki_deltas_order_independent(rows1, rows2, grain, k.0, k.1);
        assert(es1[i].delta@ == es2[j].delta@);
    }
}

/// Mapping two sequences that hold the same items, in any order, gives two
/// sequences that hold the same items.
proof fn lemma_map_perm<A, B>(s1: Seq<A>, s2: Seq<A>, f: spec_fn(A) -> B)
    requires
        s1.to_multiset() == s2.to_multiset(),
    ensures
        s1.map_values(f).to_multiset() == s2.map_values(f).to_multiset(),
    decreases s1.len(),
{
    broadcast use vstd::seq_lib::group_to_multiset_ensures;

    if s1.len() == 0 {
        s1.to_multiset_ensures();
        s2.to_multiset_ensures();
        assert(s2.len() == 0);
        assert(s1.map_values(f) =~= Seq::<B>::empty());
        assert(s2.map_values(f) =~= Seq::<B>::empty());
    } else {
        let a = s1.last();
        let p1 = s1.drop_last();
        assert(s1 =~= p1.push(a));
        assert(s1.to_multiset().count(a) > 0);
        assert(s2.contains(a));
        let j = choose|j: int| 0 <= j < s2.len() && s2[j] == a;
        let p2 = s2.remove(j);
        assert(p1.to_multiset() =~= p2.to_multiset());
        lemma_map_perm(p1, p2, f);
        let m1 = s1.map_values(f);
        let m2 = s2.map_values(f);
        assert(m1 =~= p1.map_values(f).push(f(a)));
        assert(m2.remove(j) =~= p2.map_values(f));
        assert(m2[j] == f(a));
        assert(m2.to_multiset().count(f(a)) > 0) by {
            assert(m2.contains(f(a)));
        }
        assert(m1.to_multiset() =~= m2.to_multiset());
    }
}

/// The rows a batch holds after taking in events, each with its parsed
/// instant, one after another from an empty batch.
pub open spec fn rows_of(evs: Seq<(RcEvent, Timestamp)>) -> Seq<RawRow> {
    evs.map_values(|p: (RcEvent, Timestamp)| row_of(&p.0, p.1))
}

/// Law: one more event taken in adds its row at the end: a batch that
/// `push` builds from `Buffer::new` holds `rows_of` of the events taken in,
/// in order, at every step.
pub proof fn law_rows_of_push(evs: Seq<(RcEvent, Timestamp)>, ev: RcEvent, ts: Timestamp)
    ensures
        rows_of(evs.push((ev, ts))) == rows_of(evs).push(row_of(&ev, ts)),
        rows_of(Seq::<(RcEvent, Timestamp)>::empty()) == Seq::<RawRow>::empty(),
{
    assert(rows_of(evs.push((ev, ts))) =~= rows_of(evs).push(row_of(&ev, ts)));
    assert(rows_of(Seq::<(RcEvent, Timestamp)>::empty()) =~= Seq::<RawRow>::empty());
}

/// Law: taking the same events into a batch in another order gives the same
/// raw rows in another order, the same buckets and the same counters in
/// every bucket, and the same per-wiki counters.
pub proof fn law_push_order_independent(
    evs1: Seq<(RcEvent, Timestamp)>,
    evs2: Seq<(RcEvent, Timestamp)>,
    grain: u8,
    start: int,
    server: Seq<char>,
)
    requires
        evs1.to_multiset() == evs2.to_multiset(),
    ensures
        rows_of(evs1).to_multiset() == rows_of(evs2).to_multiset(),
        bucket_tally(rows_of(evs1), grain, start) == bucket_tally(rows_of(evs2), grain, start),
        bucket_keys(rows_of(evs1)).contains((grain, start)) == bucket_keys(rows_of(evs2)).contains(
            (grain, start),
        ),
        wiki_tally(rows_of(evs1), grain, start, server) == wiki_tally(
            rows_of(evs2),
            grain,
            start,
            server,
        ),
{
    lemma_map_perm(evs1, evs2, |p: (RcEvent, Timestamp)| row_of(&p.0, p.1));
    law_counters_order_independent(rows_of(evs1), rows_of(evs2), grain, start);
    law_wiki_deltas_order_independent(rows_of(evs1), rows_of(evs2), grain, start, server);
}

} // verus!
