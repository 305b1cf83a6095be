use vstd::prelude::*;

verus! {

/// The views of the items of a sequence, in order.
pub open spec fn views<T: View>(items: Seq<T>) -> Seq<T::V> {
    Seq::new(items.len(), |i: int| items[i]@)
}

/// Copies a vector of items whose `clone` keeps the view.
pub fn clone_items<T: Clone + View>(items: &Vec<T>) -> (copy: Vec<T>)
    requires
        forall|a: T, b: T| call_ensures(T::clone, (&a,), b) ==> a@ == b@,
    ensures
        views(copy@) == views(items@),
{
    let copy = items.clone();
    assert(views(copy@) =~= views(items@));
    copy
}

/// The views of a sequence with one more item are the views of the sequence
/// with one more view.
pub proof fn lemma_views_push<T: View>(items: Seq<T>, item: T)
    ensures
        views(items.push(item)) == views(items).push(item@),
{
    assert(views(items.push(item)) =~= views(items).push(item@));
}

/// Appends an item to a vector.
pub fn push_item<T: View>(items: &mut Vec<T>, item: T)
    ensures
        views(final(items)@) == views(old(items)@).push(item@),
{
    proof {
        lemma_views_push(items@, item);
    }
    items.push(item);
}

} // verus!
