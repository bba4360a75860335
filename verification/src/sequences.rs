//! Sequences as the library models its collections: the views of the items
//! of a vector, and what filtering and rearranging do to them.

use vstd::prelude::*;

verus! {

/// The views of the items of a sequence, in order.
pub open spec fn views<T: View>(items: Seq<T>) -> Seq<T::V> {
    items.map_values(|item: T| item@)
}

/// `s` without the item at `i`, the last item moved into its place.
pub open spec fn swap_removed<T>(s: Seq<T>, i: int) -> Seq<T> {
    s.update(i, s.last()).drop_last()
}

/// A filter keeps exactly the items that pass it.
pub proof fn lemma_filter_membership<A>(s: Seq<A>, keep: spec_fn(A) -> bool, x: A)
    ensures
        s.filter(keep).contains(x) <==> s.contains(x) && keep(x),
{
    if s.filter(keep).contains(x) {
        s.lemma_filter_contains_rev(keep, x);
        let i = choose|i: int| 0 <= i < s.filter(keep).len() && s.filter(keep)[i] == x;
        s.lemma_filter_pred(keep, i);
    }
    if s.contains(x) && keep(x) {
        let i = choose|i: int| 0 <= i < s.len() && s[i] == x;
        s.lemma_filter_contains(keep, i);
    }
}

/// Leaving out an item that a filter drops does not change what the filter
/// keeps.
pub proof fn lemma_filter_after_remove<A>(s: Seq<A>, keep: spec_fn(A) -> bool, i: int)
    requires
        0 <= i < s.len(),
        !keep(s[i]),
    ensures
        s.remove(i).filter(keep) == s.filter(keep),
{
    let head = s.take(i);
    let tail = s.skip(i + 1);
    assert(s == head.push(s[i]) + tail);
    head.lemma_filter_push(s[i], keep);
    Seq::filter_distributes_over_add(head.push(s[i]), tail, keep);
    Seq::filter_distributes_over_add(head, tail, keep);
}

/// Two sequences that hold the same items, each as often as the other, have
/// views that do so too.
pub proof fn lemma_views_of_rearranged<T: View>(a: Seq<T>, b: Seq<T>)
    requires
        a.to_multiset() == b.to_multiset(),
    ensures
        views(a).to_multiset() == views(b).to_multiset(),
    decreases a.len(),
{
    broadcast use vstd::seq_lib::group_to_multiset_ensures;

    vstd::seq_lib::to_multiset_len(a);
    vstd::seq_lib::to_multiset_len(b);
    if a.len() > 0 {
        let x = a.last();
        let a1 = a.drop_last();
        assert(a == a1.push(x));
        assert(a.to_multiset().count(x) > 0);
        assert(b.contains(x));
        let j = choose|j: int| 0 <= j < b.len() && b[j] == x;
        let b1 = b.remove(j);
        assert(a1.to_multiset() == a.to_multiset().remove(x));
        lemma_views_of_rearranged(a1, b1);
        assert(views(a) == views(a1).push(x@));
        assert(views(b) == views(b1).insert(j, x@));
    }
}

} // verus!
