//! Counting occurrences of names and ranking them, most frequent first.
use vstd::prelude::*;
use crate::ordered::{KeyOrder, keys, strictly_sorted, sorted_unique};
use crate::text::{seq_lt, str_eq};

verus! {

/// How many times a name occurred.
#[derive(Debug, Clone)]
pub struct NameCount {
    pub name: String,
    pub count: usize,
}

impl KeyOrder for NameCount {
    type K = (int, Seq<char>);

    open spec fn key(&self) -> (int, Seq<char>) {
        (self.count as int, self.name@)
    }

    /// Higher counts first; equal counts by name, ascending.
    open spec fn key_lt(a: (int, Seq<char>), b: (int, Seq<char>)) -> bool {
        a.0 > b.0 || (a.0 == b.0 && seq_lt(a.1, b.1))
    }

    proof fn lemma_key_lt_irreflexive(a: (int, Seq<char>)) {
        crate::text::lemma_seq_lt_irreflexive(a.1);
    }

    proof fn lemma_key_lt_transitive(a: (int, Seq<char>), b: (int, Seq<char>), c: (int, Seq<char>)) {
        if a.0 == b.0 && b.0 == c.0 && seq_lt(a.1, b.1) && seq_lt(b.1, c.1) {
            crate::text::lemma_seq_lt_transitive(a.1, b.1, c.1);
        }
    }

    proof fn lemma_key_lt_total(a: (int, Seq<char>), b: (int, Seq<char>)) {
        crate::text::lemma_seq_lt_total(a.1, b.1);
    }

    fn key_less(&self, other: &Self) -> (r: bool) {
        if self.count > other.count {
            true
        } else if self.count == other.count {
            crate::text::str_lt(self.name.as_str(), other.name.as_str())
        } else {
            false
        }
    }
}

/// The total count recorded for `name` in `v`.
pub open spec fn count_in(v: Seq<NameCount>, name: Seq<char>) -> nat
    decreases v.len(),
{
    if v.len() == 0 {
        0
    } else {
        count_in(v.drop_last(), name) + if v.last().name@ == name {
            v.last().count as nat
        } else {
            0
        }
    }
}

/// No name is recorded twice, and every recorded count is positive.
pub open spec fn well_formed_counts(v: Seq<NameCount>) -> bool {
    &&& forall|i: int, j: int| 0 <= i < j < v.len() ==> #[trigger] v[i].name@ != #[trigger] v[j].name@
    &&& forall|i: int| 0 <= i < v.len() ==> #[trigger] v[i].count > 0
}

/// With names unique, the count of a recorded name is its entry's count.
pub proof fn lemma_count_in_entry(v: Seq<NameCount>, i: int)
    requires
        well_formed_counts(v),
        0 <= i < v.len(),
    ensures
        count_in(v, v[i].name@) == v[i].count,
    decreases v.len(),
{
    if i < v.len() - 1 {
        let u = v.drop_last();
        assert(well_formed_counts(u)) by {
            assert forall|a: int, b: int| 0 <= a < b < u.len() implies #[trigger] u[a].name@ != #[trigger] u[b].name@ by {
                assert(u[a] == v[a] && u[b] == v[b]);
            }
        }
        lemma_count_in_entry(u, i);
        assert(v.last().name@ != v[i].name@);
    } else {
        lemma_count_in_absent(v.drop_last(), v[i].name@);
    }
}

/// A name recorded nowhere has count zero.
pub proof fn lemma_count_in_absent(v: Seq<NameCount>, name: Seq<char>)
    requires
        forall|i: int| 0 <= i < v.len() ==> #[trigger] v[i].name@ != name,
    ensures
        count_in(v, name) == 0,
    decreases v.len(),
{
    if v.len() > 0 {
        lemma_count_in_absent(v.drop_last(), name);
    }
}

/// The count of `name` is positive exactly when some entry records it.
pub proof fn lemma_count_in_positive(v: Seq<NameCount>, name: Seq<char>)
    requires
        well_formed_counts(v),
    ensures
        (count_in(v, name) > 0) == (exists|i: int| 0 <= i < v.len() && #[trigger] v[i].name@ == name),
{
    if exists|i: int| 0 <= i < v.len() && #[trigger] v[i].name@ == name {
        let i = choose|i: int| 0 <= i < v.len() && #[trigger] v[i].name@ == name;
        lemma_count_in_entry(v, i);
    } else {
        lemma_count_in_absent(v, name);
    }
}

proof fn lemma_count_in_update(v: Seq<NameCount>, i: int, e: NameCount, name: Seq<char>)
    requires
        0 <= i < v.len(),
        e.name@ == v[i].name@,
    ensures
        count_in(v.update(i, e), name) == count_in(v, name) + if v[i].name@ == name {
            e.count - v[i].count
        } else {
            0int
        },
    decreases v.len(),
{
    let w = v.update(i, e);
    if i < v.len() - 1 {
        assert(w.drop_last() =~= v.drop_last().update(i, e));
        lemma_count_in_update(v.drop_last(), i, e, name);
    } else {
        assert(w.drop_last() =~= v.drop_last());
    }
}

/// Records one more occurrence of `name`.
pub fn bump(v: &mut Vec<NameCount>, name: &str)
    requires
        well_formed_counts(old(v)@),
        count_in(old(v)@, name@) < usize::MAX,
    ensures
        well_formed_counts(final(v)@),
        forall|k: Seq<char>| #[trigger] count_in(final(v)@, k) == count_in(old(v)@, k) + if k == name@ {
            1int
        } else {
            0int
        },
{
    let ghost w = v@;
    let mut i: usize = 0;
    while i < v.len()
        invariant
            v@ == w,
            w == old(v)@,
            well_formed_counts(w),
            count_in(w, name@) < usize::MAX,
            i <= v@.len(),
            forall|k: int| 0 <= k < i ==> #[trigger] v@[k].name@ != name@,
        decreases v@.len() - i,
    {
        if str_eq(v[i].name.as_str(), name) {
            proof {
                lemma_count_in_entry(w, i as int);
            }
            let c = v[i].count + 1;
            let e = NameCount { name: v[i].name.clone(), count: c };
            v.set(i, e);
            proof {
                assert(v@ == w.update(i as int, e));
                assert(w[i as int].name@ == name@);
                assert(e.count == w[i as int].count + 1);
                assert forall|k: Seq<char>| #[trigger] count_in(v@, k) == count_in(w, k) + if k == name@ { 1int } else { 0int } by {
                    lemma_count_in_update(w, i as int, e, k);
                    if k == name@ {
                        assert(count_in(v@, k) == count_in(w, k) + 1);
                    } else {
                        assert(count_in(v@, k) == count_in(w, k));
                    }
                }
                assert forall|a: int, b: int| 0 <= a < b < v@.len() implies #[trigger] v@[a].name@ != #[trigger] v@[b].name@ by {
                    assert(v@[a].name@ == w[a].name@ && v@[b].name@ == w[b].name@);
                }
            }
            return;
        }
        i += 1;
    }
    let e = NameCount { name: name.to_owned(), count: 1 };
    v.push(e);
    proof {
        assert(v@ == w.push(e));
        assert(v@.drop_last() =~= w);
        assert forall|a: int, b: int| 0 <= a < b < v@.len() implies #[trigger] v@[a].name@ != #[trigger] v@[b].name@ by {
            if b < w.len() {
                assert(v@[a] == w[a] && v@[b] == w[b]);
            } else {
                assert(v@[a] == w[a]);
            }
        }
    }
}

/// Counts ranked: highest count first, ties by name ascending.
pub fn ranked(counts: Vec<NameCount>) -> (out: Vec<NameCount>)
    requires
        well_formed_counts(counts@),
    ensures
        well_formed_counts(out@),
        strictly_sorted::<NameCount>(keys(out@)),
        forall|k: Seq<char>| #[trigger] count_in(out@, k) == count_in(counts@, k),
{
    let out = sorted_unique(counts);
    proof {
        // keys are distinct (names are), so every entry survives
        assert forall|i: int| 0 <= i < out@.len() implies #[trigger] out@[i].count > 0 by {
            assert(counts@.contains(out@[i]));
        }
        assert forall|a: int, b: int| 0 <= a < b < out@.len() implies #[trigger] out@[a].name@ != #[trigger] out@[b].name@ by {
            assert(NameCount::key_lt(keys(out@)[a], keys(out@)[b]));
            if out@[a].name@ == out@[b].name@ {
                assert(counts@.contains(out@[a]) && counts@.contains(out@[b]));
                let ia = choose|i: int| 0 <= i < counts@.len() && counts@[i] == out@[a];
                let ib = choose|i: int| 0 <= i < counts@.len() && counts@[i] == out@[b];
                if ia < ib {
                    assert(counts@[ia].name@ != counts@[ib].name@);
                } else if ib < ia {
                    assert(counts@[ib].name@ != counts@[ia].name@);
                } else {
                    crate::text::lemma_seq_lt_irreflexive(out@[a].name@);
                }
            }
        }
        assert forall|k: Seq<char>| #[trigger] count_in(out@, k) == count_in(counts@, k) by {
            lemma_count_in_positive(out@, k);
            lemma_count_in_positive(counts@, k);
            if exists|i: int| 0 <= i < counts@.len() && #[trigger] counts@[i].name@ == k {
                let i = choose|i: int| 0 <= i < counts@.len() && #[trigger] counts@[i].name@ == k;
                assert(keys(counts@).to_set().contains(keys(counts@)[i]));
                assert(keys(out@).to_set().contains(keys(counts@)[i]));
                let j = choose|j: int| 0 <= j < keys(out@).len() && keys(out@)[j] == keys(counts@)[i];
                lemma_count_in_entry(out@, j);
                lemma_count_in_entry(counts@, i);
            } else if exists|j: int| 0 <= j < out@.len() && #[trigger] out@[j].name@ == k {
                let j = choose|j: int| 0 <= j < out@.len() && #[trigger] out@[j].name@ == k;
                assert(counts@.contains(out@[j]));
                let i = choose|i: int| 0 <= i < counts@.len() && counts@[i] == out@[j];
                assert(counts@[i].name@ == k);
            }
        }
    }
    out
}

/// Name and count pairs.
pub open spec fn pairs(v: Seq<NameCount>) -> Seq<(Seq<char>, nat)> {
    v.map_values(|c: NameCount| (c.name@, c.count as nat))
}

/// `a` ranks before `b`: a higher count, or the same count and a smaller name.
pub open spec fn ranks_before(a: (Seq<char>, nat), b: (Seq<char>, nat)) -> bool {
    a.1 > b.1 || (a.1 == b.1 && seq_lt(a.0, b.0))
}

/// `v` lists every name with a positive count under `f`, once, with that
/// count, highest count first and ties by name ascending.
pub open spec fn is_ranking(v: Seq<(Seq<char>, nat)>, f: spec_fn(Seq<char>) -> nat) -> bool {
    &&& forall|i: int, j: int| 0 <= i < j < v.len() ==> ranks_before(#[trigger] v[i], #[trigger] v[j])
    &&& forall|i: int| 0 <= i < v.len() ==> (#[trigger] v[i]).1 == f(v[i].0) && v[i].1 > 0
    &&& forall|k: Seq<char>| #[trigger] f(k) > 0 ==> exists|i: int| 0 <= i < v.len() && v[i].0 == k
}

/// The recorded counts as a ranking.
pub fn rank_counts(counts: Vec<NameCount>) -> (out: Vec<NameCount>)
    requires
        well_formed_counts(counts@),
    ensures
        is_ranking(pairs(out@), |k: Seq<char>| count_in(counts@, k)),
{
    let ghost c = counts@;
    let out = ranked(counts);
    proof {
        let f = |k: Seq<char>| count_in(c, k);
        let p = pairs(out@);
        assert forall|i: int, j: int| 0 <= i < j < p.len() implies ranks_before(#[trigger] p[i], #[trigger] p[j]) by {
            assert(NameCount::key_lt(keys(out@)[i], keys(out@)[j]));
        }
        assert forall|i: int| 0 <= i < p.len() implies (#[trigger] p[i]).1 == f(p[i].0) && p[i].1 > 0 by {
            lemma_count_in_entry(out@, i);
        }
        assert forall|k: Seq<char>| #[trigger] f(k) > 0 implies exists|i: int| 0 <= i < p.len() && p[i].0 == k by {
            lemma_count_in_positive(out@, k);
            let i = choose|i: int| 0 <= i < out@.len() && #[trigger] out@[i].name@ == k;
            assert(p[i].0 == k);
        }
    }
    out
}

} // verus!
