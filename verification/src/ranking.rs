//! Stable ranking by a total preorder: the order in which the leaderboard
//! and repository discovery list their entries.
use vstd::prelude::*;

verus! {

/// `x` placed after every trailing entry that ranks at least as high as it.
pub open spec fn insert_ranked<T>(sorted: Seq<T>, x: T, ge: spec_fn(T, T) -> bool) -> Seq<T>
    decreases sorted.len(),
{
    if sorted.len() == 0 {
        seq![x]
    } else if ge(sorted.last(), x) {
        sorted.push(x)
    } else {
        insert_ranked(sorted.drop_last(), x, ge).push(sorted.last())
    }
}

/// The entries ranked highest first by `ge`; entries that rank alike keep
/// their order (an insertion sort).
pub open spec fn ranked<T>(entries: Seq<T>, ge: spec_fn(T, T) -> bool) -> Seq<T>
    decreases entries.len(),
{
    if entries.len() == 0 {
        seq![]
    } else {
        insert_ranked(ranked(entries.drop_last(), ge), entries.last(), ge)
    }
}

/// Every entry ranks at least as high as each entry after it.
pub open spec fn is_ranked<T>(s: Seq<T>, ge: spec_fn(T, T) -> bool) -> bool {
    forall|i: int, j: int| 0 <= i < j < s.len() ==> ge(#[trigger] s[i], #[trigger] s[j])
}

/// Any two entries are comparable, and ranking at least as high is
/// transitive.
pub open spec fn is_total_preorder<T>(ge: spec_fn(T, T) -> bool) -> bool {
    &&& forall|a: T, b: T| #[trigger] ge(a, b) || ge(b, a)
    &&& forall|a: T, b: T, c: T| #[trigger] ge(a, b) && #[trigger] ge(b, c) ==> ge(a, c)
}

proof fn lemma_insert_ranked<T>(s: Seq<T>, x: T, ge: spec_fn(T, T) -> bool)
    requires
        is_total_preorder(ge),
        is_ranked(s, ge),
    ensures
        is_ranked(insert_ranked(s, x, ge), ge),
        insert_ranked(s, x, ge).to_multiset() == s.to_multiset().insert(x),
    decreases s.len(),
{
    broadcast use vstd::seq_lib::group_to_multiset_ensures;

    if s.len() == 0 {
        assert(seq![x] =~= Seq::<T>::empty().push(x));
    } else if ge(s.last(), x) {
        let r = s.push(x);
        assert forall|i: int, j: int| 0 <= i < j < r.len() implies ge(#[trigger] r[i], #[trigger] r[j]) by {
            assert(r[i] == s[i]);
            if j == s.len() {
                if i < s.len() - 1 {
                    assert(ge(s[i], s[s.len() - 1]));
                    assert(ge(s[i], s[s.len() - 1]) && ge(s[s.len() - 1], x));
                }
            } else {
                assert(r[j] == s[j]);
            }
        }
    } else {
        let t = s.drop_last();
        assert(is_ranked(t, ge)) by {
            assert forall|i: int, j: int| 0 <= i < j < t.len() implies ge(#[trigger] t[i], #[trigger] t[j]) by {
                assert(t[i] == s[i] && t[j] == s[j]);
            }
        }
        lemma_insert_ranked(t, x, ge);
        let inner = insert_ranked(t, x, ge);
        let r = inner.push(s.last());
        assert(ge(x, s.last()));
        assert forall|k: int| 0 <= k < inner.len() implies ge(#[trigger] inner[k], s.last()) by {
            let e = inner[k];
            assert(inner.to_multiset().count(e) > 0);
            if e != x {
                assert(t.to_multiset().count(e) > 0);
                assert(t.contains(e));
                let m = choose|m: int| 0 <= m < t.len() && t[m] == e;
                assert(s[m] == t[m]);
                assert(ge(s[m], s[s.len() - 1]));
            }
        }
        assert forall|i: int, j: int| 0 <= i < j < r.len() implies ge(#[trigger] r[i], #[trigger] r[j]) by {
            assert(r[i] == inner[i]);
            if j == r.len() - 1 {
                assert(ge(inner[i], s.last()));
            } else {
                assert(r[j] == inner[j]);
            }
        }
        assert(s =~= t.push(s.last()));
    }
}

/// Ranking lists every entry once and puts them in order: each entry ranks
/// at least as high as those after it.
pub proof fn lemma_ranked<T>(entries: Seq<T>, ge: spec_fn(T, T) -> bool)
    requires
        is_total_preorder(ge),
    ensures
        is_ranked(ranked(entries, ge), ge),
        ranked(entries, ge).to_multiset() == entries.to_multiset(),
    decreases entries.len(),
{
    broadcast use vstd::seq_lib::group_to_multiset_ensures;

    if entries.len() == 0 {
        assert(ranked(entries, ge) =~= entries);
    } else {
        lemma_ranked(entries.drop_last(), ge);
        lemma_insert_ranked(ranked(entries.drop_last(), ge), entries.last(), ge);
        assert(entries =~= entries.drop_last().push(entries.last()));
    }
}

} // verus!
