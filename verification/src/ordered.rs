//! Strict orders on keys, and the sorted, duplicate-free vectors that the
//! library keeps its node, edge and tag lists in.
use vstd::prelude::*;


verus! {

/// A type whose values are ordered by a key with a strict total order.
pub trait KeyOrder: Sized {
    type K;

    spec fn key(&self) -> Self::K;

    spec fn key_lt(a: Self::K, b: Self::K) -> bool;

    proof fn lemma_key_lt_irreflexive(a: Self::K)
        ensures
            !Self::key_lt(a, a),
    ;

    proof fn lemma_key_lt_transitive(a: Self::K, b: Self::K, c: Self::K)
        requires
            Self::key_lt(a, b),
            Self::key_lt(b, c),
        ensures
            Self::key_lt(a, c),
    ;

    proof fn lemma_key_lt_total(a: Self::K, b: Self::K)
        ensures
            Self::key_lt(a, b) || Self::key_lt(b, a) || a == b,
    ;

    fn key_less(&self, other: &Self) -> (r: bool)
        ensures
            r == Self::key_lt(self.key(), other.key()),
    ;
}

/// The keys of a sequence of values.
pub open spec fn keys<T: KeyOrder>(s: Seq<T>) -> Seq<T::K> {
    s.map_values(|x: T| x.key())
}

/// Keys strictly increase along `k` (so no key occurs twice).
pub open spec fn strictly_sorted<T: KeyOrder>(k: Seq<T::K>) -> bool {
    forall|i: int, j: int| 0 <= i < j < k.len() ==> T::key_lt(#[trigger] k[i], #[trigger] k[j])
}

/// Two strictly sorted key sequences with the same key set are equal.
pub proof fn lemma_strictly_sorted_unique<T: KeyOrder>(a: Seq<T::K>, b: Seq<T::K>)
    requires
        strictly_sorted::<T>(a),
        strictly_sorted::<T>(b),
        a.to_set() == b.to_set(),
    ensures
        a == b,
    decreases a.len() + b.len(),
{
    if a.len() == 0 {
        if b.len() > 0 {
            assert(b.to_set().contains(b[0]));
        }
        assert(a =~= b);
    } else if b.len() == 0 {
        assert(a.to_set().contains(a[0]));
    } else {
        // the smallest elements agree
        assert(a.to_set().contains(a[0]));
        assert(b.to_set().contains(b[0]));
        let ia = choose|i: int| 0 <= i < a.len() && a[i] == b[0];
        let ib = choose|i: int| 0 <= i < b.len() && b[i] == a[0];
        if ia > 0 {
            assert(T::key_lt(a[0], a[ia]));
            if ib > 0 {
                assert(T::key_lt(b[0], b[ib]));
                T::lemma_key_lt_transitive(a[0], b[0], a[0]);
                T::lemma_key_lt_irreflexive(a[0]);
            } else {
                T::lemma_key_lt_irreflexive(a[0]);
            }
        } else if ib > 0 {
            T::lemma_key_lt_irreflexive(b[0]);
        }
        assert(a[0] == b[0]);
        let a1 = a.drop_first();
        let b1 = b.drop_first();
        assert forall|x: T::K| a1.to_set().contains(x) implies b1.to_set().contains(x) by {
            let i = choose|i: int| 0 <= i < a1.len() && a1[i] == x;
            assert(a.to_set().contains(x) && a[i + 1] == x);
            assert(b.to_set().contains(x));
            let j = choose|j: int| 0 <= j < b.len() && b[j] == x;
            if j == 0 {
                assert(T::key_lt(a[0], a[i + 1]));
                T::lemma_key_lt_irreflexive(a[0]);
            }
            assert(b1[j - 1] == x);
        }
        assert forall|x: T::K| b1.to_set().contains(x) implies a1.to_set().contains(x) by {
            let i = choose|i: int| 0 <= i < b1.len() && b1[i] == x;
            assert(b.to_set().contains(x) && b[i + 1] == x);
            assert(a.to_set().contains(x));
            let j = choose|j: int| 0 <= j < a.len() && a[j] == x;
            if j == 0 {
                assert(T::key_lt(b[0], b[i + 1]));
                T::lemma_key_lt_irreflexive(b[0]);
            }
            assert(a1[j - 1] == x);
        }
        assert(a1.to_set() =~= b1.to_set());
        lemma_strictly_sorted_unique::<T>(a1, b1);
        assert(a =~= seq![a[0]] + a1);
        assert(b =~= seq![b[0]] + b1);
    }
}

/// Inserts `x` at its place in a strictly sorted vector, unless an element with
/// the same key is already there (then the vector is unchanged).
pub fn insert_sorted_unique<T: KeyOrder>(v: &mut Vec<T>, x: T)
    requires
        strictly_sorted::<T>(keys(old(v)@)),
    ensures
        strictly_sorted::<T>(keys(final(v)@)),
        keys(final(v)@).to_set() == keys(old(v)@).to_set().insert(x.key()),
        keys(old(v)@).contains(x.key()) ==> final(v)@ == old(v)@,
        !keys(old(v)@).contains(x.key()) ==> exists|p: int|
            0 <= p <= old(v)@.len() && final(v)@ == old(v)@.insert(p, x),
{
    let ghost old_v = v@;
    let mut i: usize = 0;
    while i < v.len() && v[i].key_less(&x)
        invariant
            v@ == old_v,
            i <= v@.len(),
            forall|k: int| 0 <= k < i ==> T::key_lt(#[trigger] v@[k].key(), x.key()),
        decreases v@.len() - i,
    {
        i += 1;
    }
    proof {
        assert(keys(old_v).len() == old_v.len());
    }
    if i < v.len() && !x.key_less(&v[i]) {
        // equal keys: x is already present
        proof {
            T::lemma_key_lt_total(v@[i as int].key(), x.key());
            assert(keys(old_v)[i as int] == x.key());
            assert(keys(old_v).to_set().insert(x.key()) =~= keys(old_v).to_set());
        }
        return;
    }
    proof {
        // no element has x's key: those before are smaller, those after are larger
        assert forall|k: int| i <= k < old_v.len() implies T::key_lt(x.key(), #[trigger] old_v[k].key()) by {
            T::lemma_key_lt_total(old_v[i as int].key(), x.key());
            if k > i {
                assert(T::key_lt(keys(old_v)[i as int], keys(old_v)[k]));
                T::lemma_key_lt_transitive(x.key(), old_v[i as int].key(), old_v[k].key());
            }
        }
        if keys(old_v).contains(x.key()) {
            let k = choose|k: int| 0 <= k < keys(old_v).len() && keys(old_v)[k] == x.key();
            T::lemma_key_lt_irreflexive(x.key());
            if k < i {
                assert(T::key_lt(old_v[k].key(), x.key()));
            } else {
                assert(T::key_lt(x.key(), old_v[k].key()));
            }
        }
    }
    v.insert(i, x);
    proof {
        let nk = keys(v@);
        let ok = keys(old_v);
        assert(nk =~= ok.insert(i as int, x.key()));
        assert forall|a: int, b: int| 0 <= a < b < nk.len() implies T::key_lt(#[trigger] nk[a], #[trigger] nk[b]) by {
            if b < i {
                assert(nk[a] == ok[a] && nk[b] == ok[b]);
            } else if b == i {
                assert(nk[a] == ok[a]);
            } else if a < i {
                assert(nk[a] == ok[a] && nk[b] == ok[b - 1]);
                T::lemma_key_lt_transitive(ok[a], x.key(), ok[b - 1]);
            } else if a == i {
                assert(nk[b] == ok[b - 1]);
            } else {
                assert(nk[a] == ok[a - 1] && nk[b] == ok[b - 1]);
            }
        }
        assert forall|y: T::K| nk.to_set().contains(y) <==> ok.to_set().insert(x.key()).contains(y) by {
            if nk.to_set().contains(y) {
                let j = choose|j: int| 0 <= j < nk.len() && nk[j] == y;
                if j < i {
                    assert(ok[j] == y);
                } else if j > i {
                    assert(ok[j - 1] == y);
                }
            }
            if ok.to_set().contains(y) {
                let j = choose|j: int| 0 <= j < ok.len() && ok[j] == y;
                if j < i {
                    assert(nk[j] == y);
                } else {
                    assert(nk[j + 1] == y);
                }
            }
            if y == x.key() {
                assert(nk[i as int] == y);
            }
        }
        assert(nk.to_set() =~= ok.to_set().insert(x.key()));
    }
}

/// The distinct keys of `items`, each kept once, in increasing key order.
pub fn sorted_unique<T: KeyOrder>(items: Vec<T>) -> (out: Vec<T>)
    ensures
        strictly_sorted::<T>(keys(out@)),
        keys(out@).to_set() == keys(items@).to_set(),
        forall|i: int| 0 <= i < out@.len() ==> items@.contains(#[trigger] out@[i]),
{
    let ghost orig = items@;
    let mut out: Vec<T> = Vec::new();
    let mut rest = items;
    while rest.len() > 0
        invariant
            rest@.len() <= orig.len(),
            rest@ == orig.subrange(0, rest@.len() as int),
            strictly_sorted::<T>(keys(out@)),
            keys(out@).to_set() == keys(orig.subrange(rest@.len() as int, orig.len() as int)).to_set(),
            forall|i: int| 0 <= i < out@.len() ==> orig.contains(#[trigger] out@[i]),
        decreases rest@.len(),
    {
        let ghost n = rest@.len() as int;
        let x = rest.pop().unwrap();
        let ghost out_before = out@;
        proof {
            assert(orig[n - 1] == x);
        }
        insert_sorted_unique(&mut out, x);
        proof {
            let tail_before = orig.subrange(n, orig.len() as int);
            let tail_after = orig.subrange(n - 1, orig.len() as int);
            assert(tail_after =~= seq![x] + tail_before);
            assert(keys(tail_after) =~= seq![x.key()] + keys(tail_before));
            assert(keys(tail_after).to_set() =~= keys(tail_before).to_set().insert(x.key())) by {
                assert forall|y: T::K| keys(tail_after).to_set().contains(y) <==> keys(tail_before).to_set().insert(x.key()).contains(y) by {
                    if keys(tail_after).to_set().contains(y) {
                        let j = choose|j: int| 0 <= j < keys(tail_after).len() && keys(tail_after)[j] == y;
                        if j > 0 {
                            assert(keys(tail_before)[j - 1] == y);
                        }
                    }
                    if keys(tail_before).to_set().contains(y) {
                        let j = choose|j: int| 0 <= j < keys(tail_before).len() && keys(tail_before)[j] == y;
                        assert(keys(tail_after)[j + 1] == y);
                    }
                    if y == x.key() {
                        assert(keys(tail_after)[0] == y);
                    }
                }
            }
            assert forall|i: int| 0 <= i < out@.len() implies orig.contains(#[trigger] out@[i]) by {
                if keys(out_before).contains(x.key()) {
                    assert(out@ == out_before);
                } else {
                    let p = choose|p: int| 0 <= p <= out_before.len() && out@ == out_before.insert(p, x);
                    if i < p {
                        assert(out@[i] == out_before[i]);
                    } else if i > p {
                        assert(out@[i] == out_before[i - 1]);
                    } else {
                        assert(orig[n - 1] == out@[i]);
                    }
                }
            }
            assert(rest@ =~= orig.subrange(0, rest@.len() as int));
        }
    }
    proof {
        assert(orig.subrange(0, orig.len() as int) =~= orig);
    }
    out
}

} // verus!

verus! {

impl KeyOrder for String {
    type K = Seq<char>;

    open spec fn key(&self) -> Seq<char> {
        self@
    }

    open spec fn key_lt(a: Seq<char>, b: Seq<char>) -> bool {
        crate::text::seq_lt(a, b)
    }

    proof fn lemma_key_lt_irreflexive(a: Seq<char>) {
        crate::text::lemma_seq_lt_irreflexive(a);
    }

    proof fn lemma_key_lt_transitive(a: Seq<char>, b: Seq<char>, c: Seq<char>) {
        crate::text::lemma_seq_lt_transitive(a, b, c);
    }

    proof fn lemma_key_lt_total(a: Seq<char>, b: Seq<char>) {
        crate::text::lemma_seq_lt_total(a, b);
    }

    fn key_less(&self, other: &Self) -> (r: bool) {
        crate::text::str_lt(self.as_str(), other.as_str())
    }
}

/// The character sequences of a list of strings.
pub open spec fn views(s: Seq<String>) -> Seq<Seq<char>> {
    s.map_values(|x: String| x@)
}

/// Whether some string in `v` has the characters of `x`.
pub fn contains_str(v: &Vec<String>, x: &str) -> (r: bool)
    ensures
        r == views(v@).contains(x@),
{
    let mut i: usize = 0;
    while i < v.len()
        invariant
            i <= v@.len(),
            forall|k: int| 0 <= k < i ==> v@[k]@ != x@,
        decreases v@.len() - i,
    {
        if crate::text::str_eq(v[i].as_str(), x) {
            assert(views(v@)[i as int] == x@);
            return true;
        }
        i += 1;
    }
    proof {
        if views(v@).contains(x@) {
            let k = choose|k: int| 0 <= k < views(v@).len() && views(v@)[k] == x@;
            assert(v@[k]@ == x@);
        }
    }
    false
}

/// A copy of a list of strings.
pub fn copy_strings(v: &Vec<String>) -> (out: Vec<String>)
    ensures
        views(out@) == views(v@),
{
    let mut out: Vec<String> = Vec::new();
    let mut i: usize = 0;
    while i < v.len()
        invariant
            i <= v@.len(),
            views(out@) == views(v@).take(i as int),
        decreases v@.len() - i,
    {
        let c = v[i].clone();
        let ghost before = out@;
        out.push(c);
        assert(c@ == v@[i as int]@);
        assert(views(out@) =~= views(before).push(c@));
        assert(views(out@) =~= views(v@).take(i + 1));
        i += 1;
    }
    assert(views(v@).take(v@.len() as int) =~= views(v@));
    out
}

} // verus!

verus! {

/// Some place of `perm` holds `t`.
pub open spec fn hits(perm: Seq<int>, t: int) -> bool {
    exists|i: int| 0 <= i < perm.len() && perm[i] == t
}

/// `out` is `inp` stably sorted by key: a rearrangement of `inp` (given by
/// `perm`, out[i] == inp[perm[i]]), in non-decreasing key order, in which
/// elements with equal keys keep their original relative order.
pub open spec fn stable_sort_witness<T: KeyOrder>(out: Seq<T>, inp: Seq<T>, perm: Seq<int>) -> bool {
    &&& perm.len() == inp.len()
    &&& out.len() == inp.len()
    &&& forall|i: int| 0 <= i < perm.len() ==> 0 <= #[trigger] perm[i] < inp.len()
    &&& forall|i: int, j: int| 0 <= i < j < perm.len() ==> #[trigger] perm[i] != #[trigger] perm[j]
    &&& forall|t: int| 0 <= t < inp.len() ==> #[trigger] hits(perm, t)
    &&& forall|i: int| 0 <= i < out.len() ==> #[trigger] out[i] == inp[perm[i]]
    &&& forall|i: int, j: int|
        0 <= i < j < out.len() ==> !T::key_lt(#[trigger] out[j].key(), #[trigger] out[i].key())
    &&& forall|i: int, j: int|
        0 <= i < j < out.len() && #[trigger] out[i].key() == #[trigger] out[j].key() ==> perm[i] < perm[j]
}

/// `out` is `inp` sorted stably by key.
pub open spec fn stably_sorted<T: KeyOrder>(out: Seq<T>, inp: Seq<T>) -> bool {
    exists|perm: Seq<int>| stable_sort_witness(out, inp, perm)
}

/// Sorts by key, keeping equal keys in their original order (as std's
/// `sort_by` does).
pub fn sort_by_key_stable<T: KeyOrder>(items: Vec<T>) -> (out: Vec<T>)
    ensures
        stably_sorted(out@, items@),
{
    let ghost inp = items@;
    let ghost n = inp.len() as int;
    let mut rest = items;
    let mut out: Vec<T> = Vec::new();
    let ghost mut perm: Seq<int> = Seq::empty();
    while rest.len() > 0
        invariant
            rest@.len() <= inp.len(),
            rest@ == inp.subrange(0, rest@.len() as int),
            n == inp.len(),
            out@.len() == n - rest@.len(),
            perm.len() == out@.len(),
            forall|i: int| 0 <= i < perm.len() ==> rest@.len() <= #[trigger] perm[i] < n,
            forall|i: int, j: int| 0 <= i < j < perm.len() ==> #[trigger] perm[i] != #[trigger] perm[j],
            forall|t: int| rest@.len() <= t < n ==> #[trigger] hits(perm, t),
            forall|i: int| 0 <= i < out@.len() ==> #[trigger] out@[i] == inp[perm[i]],
            forall|i: int, j: int|
                0 <= i < j < out@.len() ==> !T::key_lt(#[trigger] out@[j].key(), #[trigger] out@[i].key()),
            forall|i: int, j: int|
                0 <= i < j < out@.len() && #[trigger] out@[i].key() == #[trigger] out@[j].key() ==> perm[i] < perm[j],
        decreases rest@.len(),
    {
        let ghost m = rest@.len() as int;
        let x = rest.pop().unwrap();
        proof {
            assert(inp[m - 1] == x);
            assert(rest@ =~= inp.subrange(0, rest@.len() as int));
        }
        let ghost old_out = out@;
        let mut p: usize = 0;
        while p < out.len() && out[p].key_less(&x)
            invariant
                out@ == old_out,
                p <= out@.len(),
                forall|k: int| 0 <= k < p ==> T::key_lt(#[trigger] out@[k].key(), x.key()),
            decreases out@.len() - p,
        {
            p += 1;
        }
        proof {
            // everything from p on has a key not below x's
            assert forall|k: int| p <= k < old_out.len() implies !T::key_lt(#[trigger] old_out[k].key(), x.key()) by {
                if k > p {
                    if T::key_lt(old_out[k].key(), x.key()) {
                        T::lemma_key_lt_total(old_out[p as int].key(), old_out[k].key());
                        if T::key_lt(old_out[p as int].key(), old_out[k].key()) {
                            T::lemma_key_lt_transitive(old_out[p as int].key(), old_out[k].key(), x.key());
                        }
                    }
                }
            }
        }
        out.insert(p, x);
        proof {
            let new_perm = perm.insert(p as int, m - 1);
            let o = out@;
            assert(o =~= old_out.insert(p as int, x));
            assert forall|i: int| 0 <= i < new_perm.len() implies m - 1 <= #[trigger] new_perm[i] < n by {
                if i < p { assert(new_perm[i] == perm[i]); }
                else if i > p { assert(new_perm[i] == perm[i - 1]); }
            }
            assert forall|i: int, j: int| 0 <= i < j < new_perm.len() implies #[trigger] new_perm[i] != #[trigger] new_perm[j] by {
                if i < p && j < p { assert(new_perm[i] == perm[i] && new_perm[j] == perm[j]); }
                else if i < p && j == p { assert(new_perm[i] == perm[i]); }
                else if i < p && j > p { assert(new_perm[i] == perm[i] && new_perm[j] == perm[j - 1]); }
                else if i == p { assert(new_perm[j] == perm[j - 1]); }
                else { assert(new_perm[i] == perm[i - 1] && new_perm[j] == perm[j - 1]); }
            }
            assert forall|t: int| m - 1 <= t < n implies #[trigger] hits(new_perm, t) by {
                if t == m - 1 {
                    assert(new_perm[p as int] == t);
                } else {
                    assert(hits(perm, t));
                    let i = choose|i: int| 0 <= i < perm.len() && perm[i] == t;
                    if i < p {
                        assert(new_perm[i] == perm[i]);
                    } else {
                        assert(new_perm[i + 1] == perm[i]);
                    }
                }
            }
            assert forall|i: int| 0 <= i < o.len() implies #[trigger] o[i] == inp[new_perm[i]] by {
                if i < p { assert(o[i] == old_out[i] && new_perm[i] == perm[i]); }
                else if i > p { assert(o[i] == old_out[i - 1] && new_perm[i] == perm[i - 1]); }
            }
            assert forall|i: int, j: int| 0 <= i < j < o.len() implies !T::key_lt(#[trigger] o[j].key(), #[trigger] o[i].key()) by {
                if i < p && j < p { assert(o[i] == old_out[i] && o[j] == old_out[j]); }
                else if i < p && j == p {
                    assert(o[i] == old_out[i]);
                    T::lemma_key_lt_irreflexive(x.key());
                    if T::key_lt(x.key(), old_out[i].key()) {
                        T::lemma_key_lt_transitive(x.key(), old_out[i].key(), x.key());
                    }
                }
                else if i < p && j > p {
                    assert(o[i] == old_out[i] && o[j] == old_out[j - 1]);
                    if T::key_lt(old_out[j - 1].key(), old_out[i].key()) {
                        T::lemma_key_lt_transitive(old_out[j - 1].key(), old_out[i].key(), x.key());
                    }
                }
                else if i == p { assert(o[j] == old_out[j - 1]); }
                else { assert(o[i] == old_out[i - 1] && o[j] == old_out[j - 1]); }
            }
            assert forall|i: int, j: int| 0 <= i < j < o.len() && #[trigger] o[i].key() == #[trigger] o[j].key() implies new_perm[i] < new_perm[j] by {
                if i < p && j < p { assert(o[i] == old_out[i] && o[j] == old_out[j]); assert(new_perm[i] == perm[i] && new_perm[j] == perm[j]); }
                else if i < p && j == p {
                    assert(o[i] == old_out[i]);
                    T::lemma_key_lt_irreflexive(x.key());
                }
                else if i < p && j > p {
                    assert(o[i] == old_out[i] && o[j] == old_out[j - 1]);
                    assert(T::key_lt(old_out[i].key(), x.key()));
                    T::lemma_key_lt_irreflexive(x.key());
                }
                else if i == p { assert(new_perm[j] == perm[j - 1]); }
                else { assert(o[i] == old_out[i - 1] && o[j] == old_out[j - 1]); assert(new_perm[i] == perm[i - 1] && new_perm[j] == perm[j - 1]); }
            }
            perm = new_perm;
        }
    }
    proof {
        assert(stable_sort_witness(out@, inp, perm));
    }
    out
}

} // verus!
