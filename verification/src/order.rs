//! Stable ordering of `(index, item)` pairs by their index, as
//! `sort_by_key(|(index, _)| *index)` orders them.
use vstd::prelude::*;

verus! {

broadcast use vstd::std_specs::vec::group_vec_axioms;

/// Indices never decrease along `s`.
pub open spec fn index_sorted<T>(s: Seq<(usize, T)>) -> bool {
    forall|i: int, j: int| 0 <= i <= j < s.len() ==> s[i].0 <= s[j].0
}

/// The pairs of `s` whose index is `k`, in their order in `s`.
pub open spec fn with_index<T>(s: Seq<(usize, T)>, k: usize) -> Seq<(usize, T)>
    decreases s.len(),
{
    if s.len() == 0 {
        Seq::empty()
    } else if s.last().0 == k {
        with_index(s.drop_last(), k).push(s.last())
    } else {
        with_index(s.drop_last(), k)
    }
}

/// `r` is `s` sorted by index, pairs of equal index keeping their order.
/// (Sortedness and the per-index subsequences determine `r` uniquely.)
pub open spec fn is_stable_sort<T>(r: Seq<(usize, T)>, s: Seq<(usize, T)>) -> bool {
    &&& index_sorted(r)
    &&& forall|k: usize| #[trigger] with_index(r, k) == with_index(s, k)
}

pub proof fn lemma_with_index_add<T>(a: Seq<(usize, T)>, b: Seq<(usize, T)>, k: usize)
    ensures
        with_index(a + b, k) == with_index(a, k) + with_index(b, k),
    decreases b.len(),
{
    if b.len() == 0 {
        assert(a + b =~= a);
        assert(with_index(a, k) + with_index(b, k) =~= with_index(a, k));
    } else {
        assert((a + b).drop_last() =~= a + b.drop_last());
        lemma_with_index_add(a, b.drop_last(), k);
        if b.last().0 == k {
            assert(with_index(a, k) + with_index(b, k) =~= (with_index(a, k) + with_index(
                b.drop_last(),
                k,
            )).push(b.last()));
        }
    }
}

proof fn lemma_with_index_none<T>(s: Seq<(usize, T)>, k: usize)
    requires
        forall|i: int| 0 <= i < s.len() ==> #[trigger] s[i].0 != k,
    ensures
        with_index(s, k) == Seq::<(usize, T)>::empty(),
    decreases s.len(),
{
    if s.len() > 0 {
        lemma_with_index_none(s.drop_last(), k);
    }
}

/// Inserts `x` into the index-sorted `r` after every pair of index at most
/// `x.0`.
fn insert_by_index<T>(r: &mut Vec<(usize, T)>, x: (usize, T))
    requires
        index_sorted(old(r)@),
    ensures
        index_sorted(final(r)@),
        final(r)@.len() == old(r)@.len() + 1,
        forall|k: usize|
            #[trigger] with_index(final(r)@, k) == if k == x.0 {
                with_index(old(r)@, k).push(x)
            } else {
                with_index(old(r)@, k)
            },
{
    let mut p = r.len();
    while p > 0 && r[p - 1].0 > x.0
        invariant
            0 <= p <= r.len(),
            r@ == old(r)@,
            forall|j: int| p <= j < r.len() ==> #[trigger] r@[j].0 > x.0,
        decreases p,
    {
        p = p - 1;
    }
    let ghost a = r@.take(p as int);
    let ghost b = r@.skip(p as int);
    let ghost xv = x;
    assert(r@ =~= a + b);
    r.insert(p, x);
    assert(r@ =~= a + seq![xv] + b);
    proof {
        assert forall|k: usize| #[trigger]
            with_index(r@, k) == if k == xv.0 {
                with_index(old(r)@, k).push(xv)
            } else {
                with_index(old(r)@, k)
            } by {
            lemma_with_index_add(a + seq![xv], b, k);
            lemma_with_index_add(a, seq![xv], k);
            lemma_with_index_add(a, b, k);
            assert(seq![xv].drop_last() =~= Seq::<(usize, T)>::empty());
            assert(with_index(seq![xv].drop_last(), k) =~= Seq::<(usize, T)>::empty());
            if k == xv.0 {
                assert(with_index(seq![xv], k) =~= seq![xv]);
            } else {
                assert(with_index(seq![xv], k) =~= Seq::<(usize, T)>::empty());
            }
            if k == xv.0 {
                assert forall|i: int| 0 <= i < b.len() implies #[trigger] b[i].0 != k by {
                    assert(b[i] == old(r)@[p + i]);
                }
                lemma_with_index_none(b, k);
                assert(with_index(b, k) =~= Seq::<(usize, T)>::empty());
                assert(with_index(a, k) + with_index(b, k) =~= with_index(a, k));
                assert(with_index(a, k) + with_index(seq![xv], k) =~= with_index(a, k).push(xv));
            } else {
                assert(with_index(a, k) + with_index(seq![xv], k) =~= with_index(a, k));
            }
        }
        assert forall|i: int, j: int| 0 <= i <= j < r@.len() implies r@[i].0 <= r@[j].0 by {
            if i < p && j > p {
                assert(r@[i] == old(r)@[i]);
                assert(r@[j] == old(r)@[j - 1]);
            } else if i < p && j == p {
                if p > 0 {
                    assert(old(r)@[p - 1].0 <= x.0);
                    assert(old(r)@[i].0 <= old(r)@[p - 1].0);
                }
            } else if i == p && j > p {
                assert(r@[j] == old(r)@[j - 1]);
            } else if i > p {
                assert(r@[i] == old(r)@[i - 1]);
                assert(r@[j] == old(r)@[j - 1]);
            }
        }
    }
}

/// `v` sorted by index; pairs with equal index keep their order.
pub fn sort_by_index<T>(v: Vec<(usize, T)>) -> (r: Vec<(usize, T)>)
    ensures
        is_stable_sort(r@, v@),
        r@.len() == v@.len(),
{
    let ghost orig = v@;
    let total = v.len();
    assert(orig.len() == total);
    let mut rest = v;
    let mut r: Vec<(usize, T)> = Vec::new();
    let mut n: usize = 0;
    while rest.len() > 0
        invariant
            n + rest.len() == orig.len(),
            orig.len() <= usize::MAX,
            rest@ == orig.skip(n as int),
            index_sorted(r@),
            r@.len() == n,
            forall|k: usize| #[trigger] with_index(r@, k) == with_index(orig.take(n as int), k),
        decreases rest.len(),
    {
        let x = rest.remove(0);
        let ghost xv = x;
        assert(orig.take(n + 1).drop_last() =~= orig.take(n as int));
        assert(orig.take(n + 1).last() == xv);
        insert_by_index(&mut r, x);
        n = n + 1;
        assert(rest@ =~= orig.skip(n as int));
    }
    assert(orig.take(n as int) =~= orig);
    r
}

/// Replaces the item of each pair by the result of `f`.
pub open spec fn map_items<T, U>(s: Seq<(usize, T)>, f: spec_fn(T) -> U) -> Seq<(usize, U)> {
    s.map_values(|e: (usize, T)| (e.0, f(e.1)))
}

pub proof fn lemma_with_index_map<T, U>(s: Seq<(usize, T)>, f: spec_fn(T) -> U, k: usize)
    ensures
        with_index(map_items(s, f), k) == map_items(with_index(s, k), f),
    decreases s.len(),
{
    if s.len() > 0 {
        assert(map_items(s, f).drop_last() =~= map_items(s.drop_last(), f));
        lemma_with_index_map(s.drop_last(), f, k);
        if s.last().0 == k {
            assert(map_items(with_index(s, k), f) =~= map_items(with_index(s.drop_last(), k), f).push(
                (k, f(s.last().1)),
            ));
        }
    } else {
        assert(map_items(s, f) =~= Seq::<(usize, U)>::empty());
        assert(map_items(with_index(s, k), f) =~= Seq::<(usize, U)>::empty());
    }
}

/// A stable sort stays one when the items are mapped.
pub proof fn lemma_stable_sort_map<T, U>(r: Seq<(usize, T)>, s: Seq<(usize, T)>, f: spec_fn(T) -> U)
    requires
        is_stable_sort(r, s),
    ensures
        is_stable_sort(map_items(r, f), map_items(s, f)),
{
    assert forall|k: usize| #[trigger] with_index(map_items(r, f), k) == with_index(map_items(s, f), k) by {
        lemma_with_index_map(r, f, k);
        lemma_with_index_map(s, f, k);
        assert(with_index(r, k) == with_index(s, k));
    }
}

} // verus!
