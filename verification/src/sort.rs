//! Stable insertion sort by a total preorder, used to put taskbar buttons
//! and cycle entries in left-to-right order.

use vstd::prelude::*;

verus! {

/// A type ordered by a key: `key_le` is a total preorder, and `le` decides
/// it.
pub trait SortKey: Sized {
    spec fn key_le(self, other: Self) -> bool;

    proof fn lemma_key_le_total(a: Self, b: Self)
        ensures
            a.key_le(b) || b.key_le(a),
    ;

    proof fn lemma_key_le_trans(a: Self, b: Self, c: Self)
        requires
            a.key_le(b),
            b.key_le(c),
        ensures
            a.key_le(c),
    ;

    fn le(&self, other: &Self) -> (r: bool)
        ensures
            r == self.key_le(*other),
    ;
}

/// `s` with `e` inserted after the last element whose key is at most
/// `e`'s, searching from the end.
pub open spec fn insert_sorted<T: SortKey>(s: Seq<T>, e: T) -> Seq<T>
    decreases s.len(),
{
    if s.len() == 0 {
        seq![e]
    } else if s.last().key_le(e) {
        s.push(e)
    } else {
        insert_sorted(s.drop_last(), e).push(s.last())
    }
}

/// The stable sort of `s`: its elements ordered by key, equal keys keeping
/// their order in `s`.
pub open spec fn stable_sorted<T: SortKey>(s: Seq<T>) -> Seq<T>
    decreases s.len(),
{
    if s.len() == 0 {
        s
    } else {
        insert_sorted(stable_sorted(s.drop_last()), s.last())
    }
}

/// Every element's key is at most the key of every later element.
pub open spec fn is_sorted<T: SortKey>(s: Seq<T>) -> bool {
    forall|i: int, j: int| 0 <= i < j < s.len() ==> #[trigger] s[i].key_le(#[trigger] s[j])
}

/// Inserting at the position found by scanning from the end.
proof fn lemma_insert_at<T: SortKey>(s: Seq<T>, e: T, j: int)
    requires
        0 <= j <= s.len(),
        j == 0 || s[j - 1].key_le(e),
        forall|k: int| j <= k < s.len() ==> !#[trigger] s[k].key_le(e),
    ensures
        insert_sorted(s, e) == s.take(j).push(e) + s.skip(j),
    decreases s.len(),
{
    if s.len() == 0 {
        assert(s.take(j).push(e) + s.skip(j) =~= seq![e]);
    } else if j == s.len() {
        assert(s.take(j).push(e) + s.skip(j) =~= s.push(e));
    } else {
        let d = s.drop_last();
        assert(!s[s.len() - 1].key_le(e));
        lemma_insert_at(d, e, j);
        assert(s.take(j).push(e) + s.skip(j) =~= (d.take(j).push(e) + d.skip(j)).push(s.last()));
    }
}

/// Inserting into a sorted sequence keeps it sorted and adds exactly `e`.
proof fn lemma_insert_sorted<T: SortKey>(s: Seq<T>, e: T)
    requires
        is_sorted(s),
    ensures
        is_sorted(insert_sorted(s, e)),
        insert_sorted(s, e).to_multiset() == s.to_multiset().insert(e),
        insert_sorted(s, e).len() == s.len() + 1,
    decreases s.len(),
{
    broadcast use vstd::seq_lib::group_to_multiset_ensures;

    if s.len() == 0 {
        assert(seq![e] =~= Seq::<T>::empty().push(e));
    } else if s.last().key_le(e) {
        let r = s.push(e);
        assert forall|i: int, j: int| 0 <= i < j < r.len() implies #[trigger] r[i].key_le(#[trigger] r[j]) by {
            if j == s.len() {
                if i < s.len() - 1 {
                    T::lemma_key_le_trans(s[i], s.last(), e);
                }
            }
        }
    } else {
        let d = s.drop_last();
        let last = s.last();
        assert(is_sorted(d));
        lemma_insert_sorted(d, e);
        let m = insert_sorted(d, e);
        let r = m.push(last);
        T::lemma_key_le_total(last, e);
        assert forall|i: int, j: int| 0 <= i < j < r.len() implies #[trigger] r[i].key_le(#[trigger] r[j]) by {
            if j == m.len() {
                // every element of m is e or an element of d, all at most `last`
                assert(m.to_multiset().count(m[i]) > 0);
                if m[i] == e {
                } else {
                    assert(d.to_multiset().count(m[i]) > 0);
                    assert(d.contains(m[i]));
                    let k = choose|k: int| 0 <= k < d.len() && d[k] == m[i];
                    assert(s[k] == d[k]);
                }
            }
        }
        assert(s =~= d.push(last));
    }
}

/// The stable sort is sorted and has the same elements.
pub proof fn lemma_stable_sorted<T: SortKey>(s: Seq<T>)
    ensures
        is_sorted(stable_sorted(s)),
        stable_sorted(s).to_multiset() == s.to_multiset(),
        stable_sorted(s).len() == s.len(),
    decreases s.len(),
{
    broadcast use vstd::seq_lib::group_to_multiset_ensures;

    if s.len() > 0 {
        lemma_stable_sorted(s.drop_last());
        lemma_insert_sorted(stable_sorted(s.drop_last()), s.last());
        assert(s =~= s.drop_last().push(s.last()));
    }
}

/// Sorts `v` stably by key.
pub fn stable_sort<T: SortKey>(v: Vec<T>) -> (r: Vec<T>)
    ensures
        r@ == stable_sorted(v@),
        is_sorted(r@),
        r@.to_multiset() == v@.to_multiset(),
{
    let ghost v0 = v@;
    let mut v = v;
    let mut r: Vec<T> = Vec::new();
    let n = v.len();
    let mut k: usize = 0;
    while k < n
        invariant
            n == v0.len(),
            k <= n,
            v@ == v0.skip(k as int),
            r@ == stable_sorted(v0.take(k as int)),
        decreases n - k,
    {
        let e = v.remove(0);
        assert(v0.take(k + 1).drop_last() =~= v0.take(k as int));
        assert(v0.take(k + 1).last() == e);
        assert(v@ =~= v0.skip(k + 1));
        let mut j = r.len();
        while j > 0 && !r[j - 1].le(&e)
            invariant
                j <= r@.len(),
                forall|q: int| j <= q < r@.len() ==> !#[trigger] r@[q].key_le(e),
            decreases j,
        {
            j = j - 1;
        }
        proof {
            lemma_insert_at(r@, e, j as int);
        }
        r.insert(j, e);
        assert(r@ =~= stable_sorted(v0.take(k + 1)));
        k = k + 1;
    }
    proof {
        assert(v0.take(n as int) =~= v0);
        lemma_stable_sorted(v0);
    }
    r
}

} // verus!
