use vstd::prelude::*;

use crate::buffer::Buffer;
use crate::event::{is_content, is_content_kind};
use crate::tally::{
    add_key, bucket_tally, in_bucket, lemma_add_key, lemma_prefix_le, lemma_row_tally_nonneg,
    lemma_untouched_wiki_is_zero, lemma_wiki_keys_shape, lemma_wiki_le_bucket, row_tally,
    wiki_keys, wiki_tally, contribution, Counters, RawRow, Tally, WikiDelta,
};
use crate::text::same_text;
use crate::time::{bucket_key, bucket_start};

verus! {

/// The counters of one wiki in one bucket of a batch.
pub struct WikiDeltaEntry {
    pub bucket_start: i64,
    pub server_name: String,
    pub delta: WikiDelta,
}

/// The keys of wiki delta entries, in order.
pub open spec fn wiki_entry_keys(es: Seq<WikiDeltaEntry>) -> Seq<(int, Seq<char>)> {
    es.map_values(|e: WikiDeltaEntry| (e.bucket_start as int, e.server_name@))
}

/// The per-wiki deltas of the rows at one grain: one entry per (bucket,
/// wiki) pair that a content edit touches, in first-touch order, holding
/// that pair's counters.
pub open spec fn wiki_deltas_match(es: Seq<WikiDeltaEntry>, rows: Seq<RawRow>, grain: u8) -> bool {
    &&& wiki_entry_keys(es) == wiki_keys(rows, grain)
    &&& forall|j: int|
        0 <= j < es.len() ==> (#[trigger] es[j]).delta@ == wiki_tally(
            rows,
            grain,
            es[j].bucket_start as int,
            es[j].server_name@,
        )
}

/// What one raw row adds to its bucket's counters.
pub fn row_counters(r: &RawRow) -> (c: Counters)
    requires
        row_tally(*r).fits(),
    ensures
        c@ == row_tally(*r),
{
    contribution(same_text(&r.kind, "new"), r.bot, r.bytes_delta)
}

/// The index of the entry for `(start, server)`, if there is one.
fn find_wiki_entry(out: &Vec<WikiDeltaEntry>, start: i64, server: &String) -> (r: Option<usize>)
    ensures
        match r {
            Some(j) => j < out@.len() && out@[j as int].bucket_start == start
                && out@[j as int].server_name@ == server@,
            None => forall|q: int|
                0 <= q < out@.len() ==> !((#[trigger] out@[q]).bucket_start == start
                    && out@[q].server_name@ == server@),
        },
{
    let m = out.len();
    for j in 0..m
        invariant
            m == out@.len(),
            forall|q: int|
                0 <= q < j ==> !((#[trigger] out@[q]).bucket_start == start
                    && out@[q].server_name@ == server@),
    {
        if out[j].bucket_start == start && out[j].server_name == *server {
            return Some(j);
        }
    }
    None
}

/// Batch-local per-wiki deltas at one grain (counters only; wiki rows never
/// carry sketches).
pub fn wiki_deltas(buf: &Buffer, grain: u8) -> (out: Vec<WikiDeltaEntry>)
    requires
        buf.wf(),
    ensures
        wiki_deltas_match(out@, buf@.raws, grain),
{
    proof {
        buf.lemma_wf_facts();
    }
    let raws = buf.raws();
    let ghost rows = raws@;
    let mut out: Vec<WikiDeltaEntry> = Vec::new();
    let n = raws.len();
    proof {
        assert(rows.take(0) =~= Seq::<RawRow>::empty());
        assert(wiki_entry_keys(out@) =~= Seq::<(int, Seq<char>)>::empty());
    }
    for i in 0..n
        invariant
            n == rows.len(),
            raws@ == rows,
            forall|j: int| 0 <= j < rows.len() ==> (#[trigger] rows[j]).ts.valid(),
            forall|g: u8, k: int| #[trigger] bucket_tally(rows, g, k).fits(),
            wiki_deltas_match(out@, rows.take(i as int), grain),
    {
        let r = &raws[i];
        let ghost prev = rows.take(i as int);
        let ghost next = rows.take(i + 1);
        proof {
            assert(next.drop_last() =~= prev);
            assert(next.last() == rows[i as int]);
        }
        if is_content(&r.kind) {
            let key = bucket_key(&r.ts, grain);
            proof {
                lemma_prefix_le(rows, i + 1, grain, key as int);
                lemma_wiki_le_bucket(next, grain, key as int, r.server_name@);
                lemma_wiki_le_bucket(prev, grain, key as int, r.server_name@);
                assert(in_bucket(*r, grain, key as int));
                assert(bucket_tally(rows, grain, key as int).fits());
            }
            let c = row_counters(r);
            proof {
                lemma_wiki_keys_shape(prev, grain);
                lemma_row_tally_nonneg(*r);
            }
            let ghost key_pair = (key as int, r.server_name@);
            match find_wiki_entry(&out, key, &r.server_name) {
                Some(j) => {
                    proof {
                        assert(wiki_entry_keys(out@)[j as int] == key_pair);
                        assert(wiki_keys(prev, grain).contains(key_pair));
                        lemma_add_key(wiki_keys(prev, grain), key_pair);
                        assert(wiki_tally(next, grain, key as int, r.server_name@) == wiki_tally(
                            prev,
                            grain,
                            key as int,
                            r.server_name@,
                        ).plus(c@));
                    }
                    let ghost old_out = out@;
                    let e = WikiDeltaEntry {
                        bucket_start: key,
                        server_name: out[j].server_name.clone(),
                        delta: out[j].delta.add(c),
                    };
                    out.set(j, e);
                    proof {
                        assert(wiki_entry_keys(out@) =~= wiki_entry_keys(old_out));
                        assert forall|q: int| 0 <= q < out@.len() implies (#[trigger] out@[q]).delta@
                            == wiki_tally(
                            next,
                            grain,
                            out@[q].bucket_start as int,
                            out@[q].server_name@,
                        ) by {
                            if q != j {
                                assert(wiki_entry_keys(old_out)[q] != wiki_entry_keys(old_out)[j as int]);
                            }
                        }
                    }
                },
                None => {
                    proof {
                        assert(!wiki_keys(prev, grain).contains(key_pair)) by {
                            if wiki_keys(prev, grain).contains(key_pair) {
                                let q = choose|q: int| 0 <= q < wiki_keys(prev, grain).len() && wiki_keys(prev, grain)[q] == key_pair;
                                assert(wiki_entry_keys(out@)[q] == key_pair);
                            }
                        }
                        lemma_untouched_wiki_is_zero(prev, grain, key as int, r.server_name@);
                    }
                    let ghost old_out = out@;
                    out.push(WikiDeltaEntry { bucket_start: key, server_name: r.server_name.clone(), delta: c });
                    proof {
                        assert(wiki_entry_keys(out@) =~= wiki_entry_keys(old_out).push(key_pair));
                        assert forall|q: int| 0 <= q < out@.len() implies (#[trigger] out@[q]).delta@
                            == wiki_tally(
                            next,
                            grain,
                            out@[q].bucket_start as int,
                            out@[q].server_name@,
                        ) by {
                            if q < old_out.len() {
                                assert(out@[q] == old_out[q]);
                                assert(wiki_entry_keys(old_out)[q] == (old_out[q].bucket_start as int, old_out[q].server_name@));
                            }
                        }
                    }
                },
            }
        } else {
            proof {
                assert forall|q: int| 0 <= q < out@.len() implies (#[trigger] out@[q]).delta@ == wiki_tally(
                    next,
                    grain,
                    out@[q].bucket_start as int,
                    out@[q].server_name@,
                ) by {}
            }
        }
    }
    proof {
        assert(rows.take(n as int) =~= rows);
    }
    out
}

/// The daemon's cache of wiki ids, by server name.
pub struct WikiDirectory {
    names: Vec<String>,
    ids: Vec<i16>,
}

impl View for WikiDirectory {
    type V = Map<Seq<char>, i16>;

    closed spec fn view(&self) -> Map<Seq<char>, i16> {
        Map::new(
            |k: Seq<char>| self.keys().contains(k),
            |k: Seq<char>| self.ids@[self.keys().index_of(k)],
        )
    }
}

/// The server names of the rows that `known` lacks, each once, in order of
/// first appearance.
pub open spec fn missing_names(rows: Seq<RawRow>, known: Map<Seq<char>, i16>) -> Seq<Seq<char>>
    decreases rows.len(),
{
    if rows.len() == 0 {
        Seq::empty()
    } else {
        let prev = missing_names(rows.drop_last(), known);
        let s = rows.last().server_name@;
        if known.contains_key(s) {
            prev
        } else {
            add_key(prev, s)
        }
    }
}

impl WikiDirectory {
    closed spec fn keys(&self) -> Seq<Seq<char>> {
        self.names@.map_values(|s: String| s@)
    }

    /// Names and ids pair up, and no name occurs twice.
    pub closed spec fn wf(&self) -> bool {
        &&& self.names@.len() == self.ids@.len()
        &&& self.keys().no_duplicates()
    }

    /// An empty directory.
    pub fn new() -> (d: WikiDirectory)
        ensures
            d.wf(),
            d@ == Map::<Seq<char>, i16>::empty(),
    {
        let d = WikiDirectory { names: Vec::new(), ids: Vec::new() };
        assert(d.keys() =~= Seq::<Seq<char>>::empty());
        assert(d@ =~= Map::<Seq<char>, i16>::empty());
        d
    }

    fn index_of_name(&self, name: &str) -> (r: Option<usize>)
        requires
            self.wf(),
        ensures
            match r {
                Some(i) => i < self.names@.len() && self.keys()[i as int] == name@,
                None => !self.keys().contains(name@),
            },
    {
        let n = self.names.len();
        for i in 0..n
            invariant
                n == self.names@.len(),
                self.wf(),
                forall|j: int| 0 <= j < i ==> self.keys()[j] != name@,
        {
            if same_text(self.names[i].as_str(), name) {
                return Some(i);
            }
        }
        proof {
            if self.keys().contains(name@) {
                let j = choose|j: int| 0 <= j < self.keys().len() && self.keys()[j] == name@;
                assert(self.keys()[j] == name@);
            }
        }
        None
    }

    proof fn lemma_view_at(&self, i: int)
        requires
            self.wf(),
            0 <= i < self.names@.len(),
        ensures
            self@.contains_key(self.keys()[i]),
            self@[self.keys()[i]] == self.ids@[i],
    {
        let k = self.keys()[i];
        assert(self.keys().contains(k));
        let j = self.keys().index_of(k);
        assert(self.keys()[j] == k);
    }

    /// The id of the wiki with this server name, if known.
    pub fn get(&self, name: &str) -> (r: Option<i16>)
        requires
            self.wf(),
        ensures
            match r {
                Some(id) => self@.contains_key(name@) && self@[name@] == id,
                None => !self@.contains_key(name@),
            },
    {
        match self.index_of_name(name) {
            Some(i) => {
                proof {
                    self.lemma_view_at(i as int);
                }
                Some(self.ids[i])
            },
            None => None,
        }
    }

    /// Records the id of a wiki, replacing any earlier id of the same name.
    pub fn insert(&mut self, name: String, id: i16)
        requires
            old(self).wf(),
        ensures
            final(self).wf(),
            final(self)@ == old(self)@.insert(name@, id),
    {
        match self.index_of_name(name.as_str()) {
            Some(i) => {
                let ghost old_keys = self.keys();
                self.ids.set(i, id);
                proof {
                    assert(self.keys() =~= old_keys);
                    assert forall|k: Seq<char>| #[trigger] self@.contains_key(k) implies self@[k] == old(self)@.insert(name@, id)[k] by {
                        let j = self.keys().index_of(k);
                        assert(self.keys()[j] == k);
                        if k == name@ {
                            assert(self.keys()[i as int] == k);
                        } else {
                            old(self).lemma_view_at(j);
                        }
                    }
                    assert(self@ =~= old(self)@.insert(name@, id));
                }
            },
            None => {
                let ghost old_keys = self.keys();
                let ghost nm = name@;
                self.names.push(name);
                self.ids.push(id);
                proof {
                    assert(self.keys() =~= old_keys.push(nm));
                    lemma_add_key(old_keys, nm);
                    assert(add_key(old_keys, nm) == old_keys.push(nm));
                    assert forall|k: Seq<char>| #[trigger] self@.contains_key(k) implies self@[k] == old(self)@.insert(nm, id)[k] by {
                        let j = self.keys().index_of(k);
                        assert(self.keys()[j] == k);
                        if k == nm {
                            assert(self.keys()[old_keys.len() as int] == nm);
                            assert(j == old_keys.len());
                        } else {
                            assert(j < old_keys.len());
                            assert(old_keys[j] == k);
                            old(self).lemma_view_at(j);
                        }
                    }
                    assert forall|k: Seq<char>| #[trigger] old(self)@.insert(nm, id).contains_key(k) implies self@.contains_key(k) by {
                        if k != nm {
                            let j = choose|j: int| 0 <= j < old_keys.len() && old_keys[j] == k;
                            assert(self.keys()[j] == k);
                        } else {
                            assert(self.keys()[old_keys.len() as int] == nm);
                        }
                    }
                    assert(self@ =~= old(self)@.insert(nm, id));
                }
            },
        }
    }

    /// Number of known wikis.
    pub fn len(&self) -> (n: usize)
        requires
            self.wf(),
        ensures
            n == self@.dom().len(),
    {
        proof {
            self.keys().unique_seq_to_set();
            assert(self@.dom() =~= self.keys().to_set());
        }
        self.names.len()
    }

    /// The server names of the batch's events that the directory lacks,
    /// each once, in order of first appearance: the wikis a flush must
    /// resolve before it writes raw rows.
    pub fn missing_wikis(&self, buf: &Buffer) -> (out: Vec<String>)
        requires
            self.wf(),
        ensures
            out@.map_values(|s: String| s@) == missing_names(buf@.raws, self@),
    {
        let raws = buf.raws();
        let ghost rows = raws@;
        let mut out: Vec<String> = Vec::new();
        let n = raws.len();
        proof {
            assert(out@.map_values(|s: String| s@) =~= missing_names(rows.take(0), self@));
        }
        for i in 0..n
            invariant
                n == rows.len(),
                raws@ == rows,
                self.wf(),
                out@.map_values(|s: String| s@) == missing_names(rows.take(i as int), self@),
        {
            let ghost prev = rows.take(i as int);
            proof {
                assert(rows.take(i + 1).drop_last() =~= prev);
                assert(rows.take(i + 1).last() == rows[i as int]);
            }
            let name = &raws[i].server_name;
            let known = self.get(name.as_str());
            if known.is_none() {
                let ghost names = out@.map_values(|s: String| s@);
                let mut seen = false;
                let m = out.len();
                for j in 0..m
                    invariant
                        m == out@.len(),
                        names == out@.map_values(|s: String| s@),
                        seen == (exists|q: int| 0 <= q < j && names[q] == name@),
                {
                    if out[j] == *name {
                        seen = true;
                    }
                    proof {
                        assert(names[j as int] == out@[j as int]@);
                    }
                }
                proof {
                    assert(seen == names.contains(name@));
                }
                if !seen {
                    out.push(name.clone());
                    proof {
                        assert(out@.map_values(|s: String| s@) =~= names.push(name@));
                    }
                }
            }
        }
        proof {
            assert(rows.take(n as int) =~= rows);
        }
        out
    }
}

} // verus!
