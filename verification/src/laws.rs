use vstd::prelude::*;

use crate::event::is_content_kind;
use crate::tally::{
    add_key, bucket_keys, bucket_tally, in_bucket, lemma_add_key, lemma_bucket_keys_shape,
    lemma_untouched_bucket_is_zero, lemma_untouched_wiki_is_zero, lemma_wiki_keys_shape,
    row_tally, wiki_keys, wiki_tally, RawRow, Tally,
};
use crate::time::{bucket_start, grain_width, G_DAY, G_HOUR, G_MINUTE};
use crate::flush::all_resolved;
use crate::wiki::{missing_names, wiki_deltas_match, wiki_entry_keys, WikiDeltaEntry};

verus! {

/// Sum of the counters of the (bucket, wiki) pairs in `keys` whose bucket
/// starts at `start`.
pub open spec fn sum_wiki_tallies(
    keys: Seq<(int, Seq<char>)>,
    rows: Seq<RawRow>,
    grain: u8,
    start: int,
) -> Tally
    decreases keys.len(),
{
    if keys.len() == 0 {
        Tally::zero()
    } else {
        let prev = sum_wiki_tallies(keys.drop_last(), rows, grain, start);
        let k = keys.last();
        if k.0 == start {
            prev.plus(wiki_tally(rows, grain, start, k.1))
        } else {
            prev
        }
    }
}

/// Sum of the deltas of the entries whose bucket starts at `start`.
pub open spec fn sum_entry_deltas(es: Seq<WikiDeltaEntry>, start: int) -> Tally
    decreases es.len(),
{
    if es.len() == 0 {
        Tally::zero()
    } else {
        let prev = sum_entry_deltas(es.drop_last(), start);
        if es.last().bucket_start as int == start {
            prev.plus(es.last().delta@)
        } else {
            prev
        }
    }
}

proof fn lemma_sum_wiki_push_row(
    keys: Seq<(int, Seq<char>)>,
    rows: Seq<RawRow>,
    r: RawRow,
    grain: u8,
    start: int,
)
    requires
        keys.no_duplicates(),
    ensures
        sum_wiki_tallies(keys, rows.push(r), grain, start) == if in_bucket(r, grain, start)
            && keys.contains((start, r.server_name@)) {
            sum_wiki_tallies(keys, rows, grain, start).plus(row_tally(r))
        } else {
            sum_wiki_tallies(keys, rows, grain, start)
        },
    decreases keys.len(),
{
    let rows2 = rows.push(r);
    assert(rows2.drop_last() =~= rows);
    if keys.len() > 0 {
        let ks = keys.drop_last();
        let x = keys.last();
        assert(ks.no_duplicates());
        lemma_sum_wiki_push_row(ks, rows, r, grain, start);
        let rk = (start, r.server_name@);
        assert(keys.contains(rk) <==> (ks.contains(rk) || x == rk)) by {
            if keys.contains(rk) {
                let i = choose|i: int| 0 <= i < keys.len() && keys[i] == rk;
                if i < ks.len() {
                    assert(ks[i] == rk);
                }
            }
            if ks.contains(rk) {
                let i = choose|i: int| 0 <= i < ks.len() && ks[i] == rk;
                assert(keys[i] == rk);
            }
            assert(keys[keys.len() - 1] == x);
        }
        assert(!(ks.contains(rk) && x == rk)) by {
            if ks.contains(rk) && x == rk {
                let i = choose|i: int| 0 <= i < ks.len() && ks[i] == rk;
                assert(keys[i] == keys[keys.len() - 1]);
            }
        }
    }
}

proof fn lemma_sum_wiki_add_key(
    keys: Seq<(int, Seq<char>)>,
    rows: Seq<RawRow>,
    k: (int, Seq<char>),
    grain: u8,
    start: int,
)
    ensures
        sum_wiki_tallies(add_key(keys, k), rows, grain, start) == if keys.contains(k) {
            sum_wiki_tallies(keys, rows, grain, start)
        } else if k.0 == start {
            sum_wiki_tallies(keys, rows, grain, start).plus(wiki_tally(rows, grain, start, k.1))
        } else {
            sum_wiki_tallies(keys, rows, grain, start)
        },
{
    if !keys.contains(k) {
        assert(keys.push(k).drop_last() =~= keys);
    }
}

/// The per-wiki counters of a bucket add up to the bucket's counters.
pub proof fn lemma_wiki_tallies_partition_bucket(rows: Seq<RawRow>, grain: u8, start: int)
    ensures
        sum_wiki_tallies(wiki_keys(rows, grain), rows, grain, start) == bucket_tally(
            rows,
            grain,
            start,
        ),
    decreases rows.len(),
{
    if rows.len() > 0 {
        let prev = rows.drop_last();
        let r = rows.last();
        assert(prev.push(r) =~= rows);
        lemma_wiki_tallies_partition_bucket(prev, grain, start);
        let keys = wiki_keys(prev, grain);
        lemma_wiki_keys_shape(prev, grain);
        lemma_sum_wiki_push_row(keys, prev, r, grain, start);
        if is_content_kind(r.kind@) {
            let rk = (bucket_start(r.ts.secs as int, grain), r.server_name@);
            lemma_sum_wiki_add_key(keys, rows, rk, grain, start);
            lemma_add_key(keys, rk);
            if !keys.contains(rk) {
                lemma_sum_wiki_push_row(keys, prev, r, grain, start);
                lemma_untouched_wiki_is_zero(prev, grain, rk.0, rk.1);
            }
        }
    }
}

proof fn lemma_entry_sums(es: Seq<WikiDeltaEntry>, rows: Seq<RawRow>, grain: u8, start: int)
    requires
        forall|j: int|
            0 <= j < es.len() ==> (#[trigger] es[j]).delta@ == wiki_tally(
                rows,
                grain,
                es[j].bucket_start as int,
                es[j].server_name@,
            ),
    ensures
        sum_entry_deltas(es, start) == sum_wiki_tallies(wiki_entry_keys(es), rows, grain, start),
    decreases es.len(),
{
    if es.len() > 0 {
        let p = es.drop_last();
        lemma_entry_sums(p, rows, grain, start);
        assert(wiki_entry_keys(es).drop_last() =~= wiki_entry_keys(p));
        assert(es[es.len() - 1] == es.last());
    }
}

/// Law: in every batch, at every grain, the per-wiki rows of a bucket add up
/// to the bucket's totals row (the wiki rows partition the totals).
pub proof fn law_wiki_rows_sum_to_totals(
    es: Seq<WikiDeltaEntry>,
    rows: Seq<RawRow>,
    grain: u8,
    start: int,
)
    requires
        wiki_deltas_match(es, rows, grain),
    ensures
        sum_entry_deltas(es, start) == bucket_tally(rows, grain, start),
{
    lemma_entry_sums(es, rows, grain, start);
    lemma_wiki_tallies_partition_bucket(rows, grain, start);
}

/// Law: a bucket key is the start of its bucket: it is aligned to the
/// grain's width, at most the instant, and less than a width before it; and
/// the bucket of a bucket's start is the bucket itself.
pub proof fn law_bucket_start_bounds(secs: int, grain: u8)
    ensures
        bucket_start(secs, grain) <= secs < bucket_start(secs, grain) + grain_width(grain),
        bucket_start(secs, grain) % grain_width(grain) == 0,
        bucket_start(bucket_start(secs, grain), grain) == bucket_start(secs, grain),
{
    let w = grain_width(grain);
    let q = secs / w;
    vstd::arithmetic::div_mod::lemma_fundamental_div_mod(secs, w);
    vstd::arithmetic::div_mod::lemma_mod_bound(secs, w);
    assert(q * w == w * q) by (nonlinear_arith);
    vstd::arithmetic::div_mod::lemma_mod_multiples_basic(q, w);
    vstd::arithmetic::div_mod::lemma_fundamental_div_mod_converse_div(q * w, w, q, 0);
}

proof fn lemma_nested_div(s: int, a: int, k: int)
    requires
        a > 0,
        k > 0,
    ensures
        ((s / a) * a) / (a * k) == s / (a * k),
{
    let b = a * k;
    assert(a * k > 0) by (nonlinear_arith)
        requires
            a > 0,
            k > 0,
    ;
    let qq = s / b;
    let rr = s % b;
    vstd::arithmetic::div_mod::lemma_fundamental_div_mod(s, b);
    vstd::arithmetic::div_mod::lemma_mod_bound(s, b);
    let r2 = rr / a;
    let r3 = rr % a;
    vstd::arithmetic::div_mod::lemma_fundamental_div_mod(rr, a);
    vstd::arithmetic::div_mod::lemma_mod_bound(rr, a);
    assert(0 <= r2 < k) by (nonlinear_arith)
        requires
            rr == a * r2 + r3,
            0 <= r3 < a,
            0 <= rr < a * k,
            a > 0,
    ;
    assert(s == (k * qq + r2) * a + r3) by (nonlinear_arith)
        requires
            s == b * qq + rr,
            b == a * k,
            rr == a * r2 + r3,
    ;
    vstd::arithmetic::div_mod::lemma_fundamental_div_mod_converse_div(s, a, k * qq + r2, r3);
    assert((k * qq + r2) * a == qq * b + a * r2) by (nonlinear_arith)
        requires
            b == a * k,
    ;
    assert(0 <= a * r2 < b) by (nonlinear_arith)
        requires
            0 <= r2 < k,
            a > 0,
            b == a * k,
    ;
    vstd::arithmetic::div_mod::lemma_fundamental_div_mod_converse_div(qq * b + a * r2, b, qq, a * r2);
}

/// A grain that is finer than another (minute within hour or day, hour
/// within day).
pub open spec fn finer(fine: u8, coarse: u8) -> bool {
    (fine == G_MINUTE && (coarse == G_HOUR || coarse == G_DAY)) || (fine == G_HOUR && coarse
        == G_DAY)
}

/// Law: a minute lies in the hour and the day of its instant, and an hour in
/// the day of its instant.
pub proof fn law_buckets_nest(secs: int, fine: u8, coarse: u8)
    requires
        finer(fine, coarse),
    ensures
        bucket_start(bucket_start(secs, fine), coarse) == bucket_start(secs, coarse),
{
    let a = grain_width(fine);
    let k = grain_width(coarse) / grain_width(fine);
    assert(grain_width(coarse) == a * k);
    lemma_nested_div(secs, a, k);
}

/// Sum of the counters of the `fine` buckets in `keys` that lie in the
/// `coarse` bucket starting at `start`.
pub open spec fn sum_nested_tallies(
    keys: Seq<(u8, int)>,
    rows: Seq<RawRow>,
    fine: u8,
    coarse: u8,
    start: int,
) -> Tally
    decreases keys.len(),
{
    if keys.len() == 0 {
        Tally::zero()
    } else {
        let prev = sum_nested_tallies(keys.drop_last(), rows, fine, coarse, start);
        let k = keys.last();
        if k.0 == fine && bucket_start(k.1, coarse) == start {
            prev.plus(bucket_tally(rows, fine, k.1))
        } else {
            prev
        }
    }
}

proof fn lemma_sum_nested_push_row(
    keys: Seq<(u8, int)>,
    rows: Seq<RawRow>,
    r: RawRow,
    fine: u8,
    coarse: u8,
    start: int,
)
    requires
        keys.no_duplicates(),
    ensures
        ({
            let rk = (fine, bucket_start(r.ts.secs as int, fine));
            sum_nested_tallies(keys, rows.push(r), fine, coarse, start) == if is_content_kind(
                r.kind@,
            ) && keys.contains(rk) && bucket_start(rk.1, coarse) == start {
                sum_nested_tallies(keys, rows, fine, coarse, start).plus(row_tally(r))
            } else {
                sum_nested_tallies(keys, rows, fine, coarse, start)
            }
        }),
    decreases keys.len(),
{
    let rows2 = rows.push(r);
    assert(rows2.drop_last() =~= rows);
    if keys.len() > 0 {
        let ks = keys.drop_last();
        let x = keys.last();
        assert(ks.no_duplicates());
        lemma_sum_nested_push_row(ks, rows, r, fine, coarse, start);
        let rk = (fine, bucket_start(r.ts.secs as int, fine));
        assert(keys.contains(rk) <==> (ks.contains(rk) || x == rk)) by {
            if keys.contains(rk) {
                let i = choose|i: int| 0 <= i < keys.len() && keys[i] == rk;
                if i < ks.len() {
                    assert(ks[i] == rk);
                }
            }
            if ks.contains(rk) {
                let i = choose|i: int| 0 <= i < ks.len() && ks[i] == rk;
                assert(keys[i] == rk);
            }
            assert(keys[keys.len() - 1] == x);
        }
        assert(!(ks.contains(rk) && x == rk)) by {
            if ks.contains(rk) && x == rk {
                let i = choose|i: int| 0 <= i < ks.len() && ks[i] == rk;
                assert(keys[i] == keys[keys.len() - 1]);
            }
        }
    }
}

proof fn lemma_sum_nested_add_key(
    keys: Seq<(u8, int)>,
    rows: Seq<RawRow>,
    k: (u8, int),
    fine: u8,
    coarse: u8,
    start: int,
)
    ensures
        sum_nested_tallies(add_key(keys, k), rows, fine, coarse, start) == if !keys.contains(k)
            && k.0 == fine && bucket_start(k.1, coarse) == start {
            sum_nested_tallies(keys, rows, fine, coarse, start).plus(bucket_tally(rows, fine, k.1))
        } else {
            sum_nested_tallies(keys, rows, fine, coarse, start)
        },
{
    if !keys.contains(k) {
        assert(keys.push(k).drop_last() =~= keys);
    }
}

/// Law: the buckets of a finer grain that lie in a coarser bucket add up to
/// it: the minutes of an hour (or a day) sum to the hour's (or the day's)
/// counters, and the hours of a day to the day's.
pub proof fn law_finer_buckets_sum_to_coarser(rows: Seq<RawRow>, fine: u8, coarse: u8, start: int)
    requires
        finer(fine, coarse),
    ensures
        sum_nested_tallies(bucket_keys(rows), rows, fine, coarse, start) == bucket_tally(
            rows,
            coarse,
            start,
        ),
    decreases rows.len(),
{
    if rows.len() > 0 {
        let prev = rows.drop_last();
        let r = rows.last();
        assert(prev.push(r) =~= rows);
        law_finer_buckets_sum_to_coarser(prev, fine, coarse, start);
        let keys = bucket_keys(prev);
        lemma_bucket_keys_shape(prev);
        lemma_sum_nested_push_row(keys, prev, r, fine, coarse, start);
        let s = r.ts.secs as int;
        law_buckets_nest(s, fine, coarse);
        if is_content_kind(r.kind@) {
            let km = (G_MINUTE, bucket_start(s, G_MINUTE));
            let kh = (G_HOUR, bucket_start(s, G_HOUR));
            let kd = (G_DAY, bucket_start(s, G_DAY));
            let k1 = add_key(keys, km);
            let k2 = add_key(k1, kh);
            lemma_add_key(keys, km);
            lemma_add_key(k1, kh);
            lemma_add_key(k2, kd);
            lemma_sum_nested_add_key(keys, rows, km, fine, coarse, start);
            lemma_sum_nested_add_key(k1, rows, kh, fine, coarse, start);
            lemma_sum_nested_add_key(k2, rows, kd, fine, coarse, start);
            let rk = (fine, bucket_start(s, fine));
            if !keys.contains(rk) {
                lemma_untouched_bucket_is_zero(prev, fine, rk.1);
            }
        }
    }
}

/// Law: an event that is not a content edit (a log, categorize or external
/// event) is kept as a raw row but counted nowhere: no bucket's counters and
/// no bucket key change.
pub proof fn law_non_content_not_counted(rows: Seq<RawRow>, r: RawRow, grain: u8, start: int)
    requires
        !is_content_kind(r.kind@),
    ensures
        bucket_tally(rows.push(r), grain, start) == bucket_tally(rows, grain, start),
        bucket_keys(rows.push(r)) == bucket_keys(rows),
{
    assert(rows.push(r).drop_last() =~= rows);
}

/// Law: counters only grow as a batch takes events in.
pub proof fn law_counters_grow(rows: Seq<RawRow>, r: RawRow, grain: u8, start: int)
    ensures
        bucket_tally(rows, grain, start).le(bucket_tally(rows.push(r), grain, start)),
{
    assert(rows.push(r).drop_last() =~= rows);
}

/// Law: a new page is counted inside `edits`, and so is a bot edit: a
/// bucket never holds more new pages or bot edits than edits.
pub proof fn law_edits_bound_new_pages_and_bots(rows: Seq<RawRow>, grain: u8, start: int)
    ensures
        bucket_tally(rows, grain, start).new_pages <= bucket_tally(rows, grain, start).edits,
        bucket_tally(rows, grain, start).bot_edits <= bucket_tally(rows, grain, start).edits,
        0 <= bucket_tally(rows, grain, start).new_pages,
        0 <= bucket_tally(rows, grain, start).bot_edits,
    decreases rows.len(),
{
    if rows.len() > 0 {
        law_edits_bound_new_pages_and_bots(rows.drop_last(), grain, start);
    }
}

/// Sum of the byte deltas of the content edits in bucket `(grain, start)`.
pub open spec fn net_delta(rows: Seq<RawRow>, grain: u8, start: int) -> int
    decreases rows.len(),
{
    if rows.len() == 0 {
        0
    } else {
        let prev = net_delta(rows.drop_last(), grain, start);
        let r = rows.last();
        if in_bucket(r, grain, start) {
            match r.bytes_delta {
                Some(d) => prev + d,
                None => prev,
            }
        } else {
            prev
        }
    }
}

/// Law: bytes added and bytes removed are the two halves of the byte delta:
/// their difference is the bucket's net delta, and both are nonnegative.
pub proof fn law_bytes_halves(rows: Seq<RawRow>, grain: u8, start: int)
    ensures
        bucket_tally(rows, grain, start).bytes_added - bucket_tally(rows, grain, start).bytes_removed
            == net_delta(rows, grain, start),
        0 <= bucket_tally(rows, grain, start).bytes_added,
        0 <= bucket_tally(rows, grain, start).bytes_removed,
    decreases rows.len(),
{
    if rows.len() > 0 {
        law_bytes_halves(rows.drop_last(), grain, start);
    }
}

proof fn lemma_missing_names_cover(rows: Seq<RawRow>, known: Map<Seq<char>, i16>)
    ensures
        forall|i: int|
            0 <= i < rows.len() ==> known.contains_key(#[trigger] rows[i].server_name@)
                || missing_names(rows, known).contains(rows[i].server_name@),
    decreases rows.len(),
{
    if rows.len() > 0 {
        let prev = rows.drop_last();
        lemma_missing_names_cover(prev, known);
        let sname = rows.last().server_name@;
        lemma_add_key(missing_names(prev, known), sname);
        assert forall|i: int| 0 <= i < rows.len() implies known.contains_key(
            #[trigger] rows[i].server_name@,
        ) || missing_names(rows, known).contains(rows[i].server_name@) by {
            if i < prev.len() {
                assert(rows[i] == prev[i]);
            }
        }
    }
}

/// Law: once every wiki that `missing_wikis` names has an id (and the known
/// ids stay), every row of the batch resolves, so the batch can be planned.
pub proof fn law_resolving_missing_wikis_resolves_batch(
    rows: Seq<RawRow>,
    known: Map<Seq<char>, i16>,
    after: Map<Seq<char>, i16>,
)
    requires
        forall|n: Seq<char>| #[trigger] known.contains_key(n) ==> after.contains_key(n),
        forall|j: int|
            0 <= j < missing_names(rows, known).len() ==> after.contains_key(
                #[trigger] missing_names(rows, known)[j],
            ),
    ensures
        all_resolved(rows, after),
{
    lemma_missing_names_cover(rows, known);
    assert forall|i: int| 0 <= i < rows.len() implies after.contains_key(
        #[trigger] rows[i].server_name@,
    ) by {
        let sname = rows[i].server_name@;
        if !known.contains_key(sname) {
            let m = missing_names(rows, known);
            let j = choose|j: int| 0 <= j < m.len() && m[j] == sname;
            assert(after.contains_key(m[j]));
        }
    }
}

} // verus!
