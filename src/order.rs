//! Stable insertion order by an integer key: the specification of the sorts
//! in this crate, and the two facts their loops need.
use vstd::prelude::*;
use vstd::seq_lib::lemma_multiset_commutative;

verus! {

/// `s` is in nondecreasing order of `key`.
pub open spec fn sorted_by_key<T>(s: Seq<T>, key: spec_fn(T) -> int) -> bool {
    forall|i: int, j: int| 0 <= i < j < s.len() ==> key(s[i]) <= key(s[j])
}

/// `e` placed into `sorted` after every element whose key is no greater.
pub open spec fn insert_by_key<T>(sorted: Seq<T>, e: T, key: spec_fn(T) -> int) -> Seq<T>
    decreases sorted.len(),
{
    if sorted.len() == 0 {
        seq![e]
    } else if key(sorted.last()) <= key(e) {
        sorted.push(e)
    } else {
        insert_by_key(sorted.drop_last(), e, key).push(sorted.last())
    }
}

/// The stable sort of `s` by `key`: elements with equal keys keep their order.
pub open spec fn stable_sort_by_key<T>(s: Seq<T>, key: spec_fn(T) -> int) -> Seq<T>
    decreases s.len(),
{
    if s.len() == 0 {
        s
    } else {
        insert_by_key(stable_sort_by_key(s.drop_last(), key), s.last(), key)
    }
}

/// Placing `e` at position `p` of `t`, just after the last element whose key
/// is no greater than its own, is what `insert_by_key` does.
pub proof fn lemma_insert_at<T>(t: Seq<T>, e: T, p: int, key: spec_fn(T) -> int)
    requires
        0 <= p <= t.len(),
        forall|j: int| p <= j < t.len() ==> key(#[trigger] t[j]) > key(e),
        p == 0 || key(t[p - 1]) <= key(e),
    ensures
        insert_by_key(t, e, key) == t.insert(p, e),
    decreases t.len(),
{
    if t.len() == 0 {
        assert(t.insert(p, e) =~= seq![e]);
    } else if key(t.last()) <= key(e) {
        assert(t.insert(p, e) =~= t.push(e));
    } else {
        lemma_insert_at(t.drop_last(), e, p, key);
        assert(t.drop_last().insert(p, e).push(t.last()) =~= t.insert(p, e));
    }
}

/// Such an insertion keeps the order and adds `e` to the contents.
pub proof fn lemma_insert_keeps_order<T>(t: Seq<T>, e: T, p: int, key: spec_fn(T) -> int)
    requires
        sorted_by_key(t, key),
        0 <= p <= t.len(),
        forall|j: int| p <= j < t.len() ==> key(#[trigger] t[j]) > key(e),
        p == 0 || key(t[p - 1]) <= key(e),
    ensures
        sorted_by_key(t.insert(p, e), key),
        t.insert(p, e).to_multiset() == t.to_multiset().insert(e),
{
    let u = t.insert(p, e);
    t.insert_ensures(p, e);
    assert forall|i: int, j: int| 0 <= i < j < u.len() implies key(u[i]) <= key(u[j]) by {
        if j < p {
        } else if j == p {
            assert(u[i] == t[i]);
            assert(key(t[i]) <= key(t[p - 1]));
        } else if i < p {
            assert(u[j] == t[j - 1]);
        } else if i == p {
            assert(u[j] == t[j - 1]);
        } else {
            assert(u[i] == t[i - 1] && u[j] == t[j - 1]);
        }
    }
    let a = t.subrange(0, p);
    let b = t.subrange(p, t.len() as int);
    assert(t =~= a + b);
    assert(u =~= a.push(e) + b);
    lemma_multiset_commutative(a, b);
    lemma_multiset_commutative(a.push(e), b);
    a.to_multiset_ensures();
}

} // verus!
