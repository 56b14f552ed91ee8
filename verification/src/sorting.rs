//! Stable sorting by a key made of strings, as `slice::sort_by` with a key
//! comparison does it.
use vstd::prelude::*;
use crate::order::{keys_lt, lemma_keys_order};

verus! {

/// A value that is sorted by a tuple of strings.
pub trait SortKey: Sized {
    /// The key by which the value is sorted.
    spec fn sort_key(&self) -> Seq<Seq<char>>;

    /// Whether the key of `self` comes strictly before that of `other`.
    fn key_precedes(&self, other: &Self) -> (r: bool)
        ensures
            r == keys_lt(self.sort_key(), other.sort_key()),
    ;
}

/// No element of `s` has a key after that of a later element.
pub open spec fn sorted_by_key<T: SortKey>(s: Seq<T>) -> bool {
    forall|i: int, j: int|
        0 <= i < j < s.len() ==> !keys_lt(#[trigger] s[j].sort_key(), #[trigger] s[i].sort_key())
}

/// The test that a value has key `k`.
pub open spec fn has_key<T: SortKey>(k: Seq<Seq<char>>) -> spec_fn(T) -> bool {
    |x: T| x.sort_key() == k
}

/// The elements of `s` whose key is `k`, in their order in `s`.
pub open spec fn with_key<T: SortKey>(s: Seq<T>, k: Seq<Seq<char>>) -> Seq<T> {
    s.filter(has_key(k))
}

/// `r` is `s` sorted by key, with elements of equal keys in their order in
/// `s`: what a stable sort gives (and, by `lemma_stable_sort_unique`,
/// nothing else).
pub open spec fn is_stable_sort_of<T: SortKey>(r: Seq<T>, s: Seq<T>) -> bool {
    &&& r.len() == s.len()
    &&& sorted_by_key(r)
    &&& forall|k: Seq<Seq<char>>| #[trigger] with_key(r, k) == with_key(s, k)
}

proof fn lemma_filter_none<T>(s: Seq<T>, p: spec_fn(T) -> bool)
    requires
        forall|i: int| 0 <= i < s.len() ==> !p(#[trigger] s[i]),
    ensures
        s.filter(p) == Seq::<T>::empty(),
    decreases s.len(),
{
    reveal_with_fuel(Seq::filter, 1);
    if s.len() > 0 {
        lemma_filter_none(s.drop_last(), p);
    }
}

proof fn lemma_with_key_insert<T: SortKey>(res: Seq<T>, p: int, x: T, k: Seq<Seq<char>>)
    requires
        0 <= p <= res.len(),
        forall|q: int| 0 <= q < p ==> keys_lt(#[trigger] res[q].sort_key(), x.sort_key()),
    ensures
        with_key(res.insert(p, x), k) == with_key(seq![x], k) + with_key(res, k),
{
    lemma_keys_order();
    let pred = has_key::<T>(k);
    let a = res.take(p);
    let b = res.skip(p);
    assert(res =~= a + b);
    assert(res.insert(p, x) =~= a + (seq![x] + b));
    Seq::filter_distributes_over_add(a, seq![x] + b, pred);
    Seq::filter_distributes_over_add(seq![x], b, pred);
    Seq::filter_distributes_over_add(a, b, pred);
    if k == x.sort_key() {
        assert forall|i: int| 0 <= i < a.len() implies !pred(#[trigger] a[i]) by {
            assert(keys_lt(res[i].sort_key(), x.sort_key()));
        }
        lemma_filter_none(a, pred);
        assert(with_key(res, k) == a.filter(pred) + b.filter(pred));
        assert(with_key(res, k) =~= b.filter(pred));
        assert(with_key(res.insert(p, x), k) == a.filter(pred) + (seq![x].filter(pred) + b.filter(pred)));
        assert(with_key(res.insert(p, x), k) =~= with_key(seq![x], k) + with_key(res, k));
    } else {
        reveal_with_fuel(Seq::filter, 2);
        assert(seq![x].drop_last() =~= Seq::<T>::empty());
        assert(seq![x].filter(pred) =~= Seq::<T>::empty());
        assert(with_key(res.insert(p, x), k) =~= with_key(seq![x], k) + with_key(res, k));
    }
}

proof fn lemma_with_key_drop_last<T: SortKey>(r: Seq<T>, k: Seq<Seq<char>>)
    requires
        r.len() > 0,
    ensures
        r.last().sort_key() == k ==> with_key(r, k) == with_key(r.drop_last(), k).push(r.last()),
        r.last().sort_key() != k ==> with_key(r, k) == with_key(r.drop_last(), k),
{
    assert(r =~= r.drop_last().push(r.last()));
    r.drop_last().lemma_filter_push(r.last(), has_key::<T>(k));
}

proof fn lemma_same_groups_equal<T: SortKey>(r1: Seq<T>, r2: Seq<T>)
    requires
        r1.len() == r2.len(),
        sorted_by_key(r1),
        sorted_by_key(r2),
        forall|k: Seq<Seq<char>>| #[trigger] with_key(r1, k) == with_key(r2, k),
    ensures
        r1 == r2,
    decreases r1.len(),
{
    lemma_keys_order();
    let n = r1.len();
    if n == 0 {
        assert(r1 =~= r2);
    } else {
        let x1 = r1.last();
        let x2 = r2.last();
        let k1 = x1.sort_key();
        let k2 = x2.sort_key();
        lemma_with_key_drop_last(r1, k1);
        lemma_with_key_drop_last(r2, k2);
        lemma_with_key_drop_last(r1, k2);
        lemma_with_key_drop_last(r2, k1);
        assert(k1 == k2) by {
            if keys_lt(k1, k2) {
                let w = with_key(r1, k2);
                assert(with_key(r2, k2).len() > 0);
                assert(w.len() > 0);
                assert(w.contains(w[0]));
                r1.lemma_filter_contains_rev(has_key::<T>(k2), w[0]);
                r1.lemma_filter_pred(has_key::<T>(k2), 0);
                let i = choose|i: int| 0 <= i < r1.len() && r1[i] == w[0];
                assert(r1[i].sort_key() == k2);
                if i < n - 1 {
                    assert(!keys_lt(r1[n - 1].sort_key(), r1[i].sort_key()));
                }
            } else if keys_lt(k2, k1) {
                let w = with_key(r2, k1);
                assert(with_key(r1, k1).len() > 0);
                assert(w.len() > 0);
                assert(w.contains(w[0]));
                r2.lemma_filter_contains_rev(has_key::<T>(k1), w[0]);
                r2.lemma_filter_pred(has_key::<T>(k1), 0);
                let i = choose|i: int| 0 <= i < r2.len() && r2[i] == w[0];
                assert(r2[i].sort_key() == k1);
                if i < n - 1 {
                    assert(!keys_lt(r2[n - 1].sort_key(), r2[i].sort_key()));
                }
            }
        }
        assert(with_key(r1, k1).last() == x1);
        assert(with_key(r2, k1).last() == x2);
        assert(x1 == x2);
        let d1 = r1.drop_last();
        let d2 = r2.drop_last();
        assert forall|k: Seq<Seq<char>>| #[trigger] with_key(d1, k) == with_key(d2, k) by {
            lemma_with_key_drop_last(r1, k);
            lemma_with_key_drop_last(r2, k);
            if k == k1 {
                assert(with_key(d1, k) =~= with_key(r1, k).drop_last());
                assert(with_key(d2, k) =~= with_key(r2, k).drop_last());
            }
        }
        assert(sorted_by_key(d1));
        assert(sorted_by_key(d2));
        lemma_same_groups_equal(d1, d2);
        assert(r1 =~= d1.push(x1));
        assert(r2 =~= d2.push(x2));
    }
}

/// A stable sort's result is determined by its input: two stable sorts of
/// the same sequence are the same sequence.
pub proof fn lemma_stable_sort_unique<T: SortKey>(r1: Seq<T>, r2: Seq<T>, s: Seq<T>)
    requires
        is_stable_sort_of(r1, s),
        is_stable_sort_of(r2, s),
    ensures
        r1 == r2,
{
    assert forall|k: Seq<Seq<char>>| #[trigger] with_key(r1, k) == with_key(r2, k) by {
        assert(with_key(r1, k) == with_key(s, k));
        assert(with_key(r2, k) == with_key(s, k));
    }
    lemma_same_groups_equal(r1, r2);
}

/// Sorts `v` by key, keeping elements with equal keys in their order.
pub fn stable_sort<T: SortKey>(v: Vec<T>) -> (r: Vec<T>)
    ensures
        is_stable_sort_of(r@, v@),
{
    let ghost orig = v@;
    let mut v = v;
    let mut res: Vec<T> = Vec::new();
    proof {
        assert(orig.skip(orig.len() as int) =~= Seq::<T>::empty());
        assert(orig.take(orig.len() as int) =~= orig);
        assert forall|k: Seq<Seq<char>>| #[trigger] with_key(res@, k) == with_key(
            orig.skip(v.len() as int),
            k,
        ) by {
            reveal_with_fuel(Seq::filter, 1);
            assert(res@ =~= Seq::<T>::empty());
        }
    }
    while v.len() > 0
        invariant
            v.len() <= orig.len(),
            v@ == orig.take(v.len() as int),
            res.len() + v.len() == orig.len(),
            sorted_by_key(res@),
            forall|k: Seq<Seq<char>>| #[trigger] with_key(res@, k) == with_key(
                orig.skip(v.len() as int),
                k,
            ),
        decreases v.len(),
    {
        let ghost n = v.len();
        let x = v.pop().unwrap();
        assert(x == orig[n - 1]);
        let mut p: usize = 0;
        while p < res.len() && res[p].key_precedes(&x)
            invariant
                p <= res.len(),
                forall|q: int| 0 <= q < p ==> keys_lt(#[trigger] res@[q].sort_key(), x.sort_key()),
            decreases res.len() - p,
        {
            p = p + 1;
        }
        let ghost old_res = res@;
        proof {
            lemma_keys_order();
            assert forall|i: int, j: int|
                0 <= i < j < old_res.len() + 1 implies !keys_lt(
                #[trigger] old_res.insert(p as int, x)[j].sort_key(),
                #[trigger] old_res.insert(p as int, x)[i].sort_key(),
            ) by {
                let s2 = old_res.insert(p as int, x);
                if j < p {
                } else if j == p {
                    assert(keys_lt(old_res[i].sort_key(), x.sort_key()));
                } else if i == p {
                    let a = old_res[p as int].sort_key();
                    let c = old_res[j - 1].sort_key();
                    assert(!keys_lt(a, x.sort_key()));
                    if p < j - 1 {
                        assert(!keys_lt(old_res[j - 1].sort_key(), old_res[p as int].sort_key()));
                    }
                    if keys_lt(c, x.sort_key()) {
                        if keys_lt(a, c) {
                            assert(keys_lt(a, x.sort_key()));
                        }
                    }
                } else if i < p {
                    assert(s2[i] == old_res[i]);
                    assert(s2[j] == old_res[j - 1]);
                } else {
                    assert(s2[i] == old_res[i - 1]);
                    assert(s2[j] == old_res[j - 1]);
                }
            }
        }
        res.insert(p, x);
        proof {
            assert(orig.skip(n - 1) =~= seq![x] + orig.skip(n as int));
            assert forall|k: Seq<Seq<char>>| #[trigger] with_key(res@, k) == with_key(
                orig.skip(v.len() as int),
                k,
            ) by {
                lemma_with_key_insert(old_res, p as int, x, k);
                Seq::filter_distributes_over_add(
                    seq![x],
                    orig.skip(n as int),
                    has_key::<T>(k),
                );
            }
            assert(v@ =~= orig.take(v.len() as int));
        }
    }
    proof {
        assert(orig.skip(0) =~= orig);
    }
    res
}

} // verus!
