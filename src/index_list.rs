use vstd::prelude::*;

verus! {

/// The size of the voice pool, and the capacity of each list of voice indices.
pub const MAX_VOICES: usize = 32;

#[verifier::external_type_specification]
#[verifier::external_body]
#[verifier::reject_recursive_types(T)]
pub struct ExHeaplessVec<T, const N: usize>(heapless::Vec<T, N>);

/// A fixed-capacity list of voice indices.
pub type IndexList = heapless::Vec<usize, MAX_VOICES>;

/// The indices an `IndexList` holds, in order.
pub uninterp spec fn index_list_items(v: heapless::Vec<usize, MAX_VOICES>) -> Seq<usize>;

/// Relies on heapless::Vec::new: the new vector is empty.
#[verifier::external_body]
pub(crate) fn index_list_new() -> (r: IndexList)
    ensures
        index_list_items(r) == Seq::<usize>::empty(),
{
    heapless::Vec::new()
}

/// Relies on the slice length that heapless::Vec dereferences to: the number
/// of items held, which never exceeds the capacity.
#[verifier::external_body]
pub(crate) fn index_list_len(v: &IndexList) -> (r: usize)
    ensures
        r == index_list_items(*v).len(),
        r <= MAX_VOICES,
{
    v.len()
}

/// Relies on heapless::Vec indexing through its slice: the item at `i`.
#[verifier::external_body]
pub(crate) fn index_list_get(v: &IndexList, i: usize) -> (r: usize)
    requires
        i < index_list_items(*v).len(),
    ensures
        r == index_list_items(*v)[i as int],
{
    v[i]
}

/// Relies on heapless::Vec::push: appends when below capacity, and hands the
/// item back otherwise.
#[verifier::external_body]
pub(crate) fn index_list_push(v: &mut IndexList, x: usize) -> (r: Result<(), usize>)
    ensures
        index_list_items(*old(v)).len() < MAX_VOICES ==> r.is_ok(),
        index_list_items(*old(v)).len() < MAX_VOICES ==> index_list_items(*final(v)) == index_list_items(*old(v)).push(x),
        index_list_items(*old(v)).len() >= MAX_VOICES ==> r.is_err(),
        index_list_items(*old(v)).len() >= MAX_VOICES ==> index_list_items(*final(v)) == index_list_items(*old(v)),
{
    v.push(x)
}

/// Relies on heapless::Vec::pop: removes and returns the last item.
#[verifier::external_body]
pub(crate) fn index_list_pop(v: &mut IndexList) -> (r: Option<usize>)
    ensures
        index_list_items(*old(v)).len() == 0 ==> r.is_none() && *final(v) == *old(v),
        index_list_items(*old(v)).len() > 0 ==> r == Some(index_list_items(*old(v)).last())
            && index_list_items(*final(v)) == index_list_items(*old(v)).drop_last(),
{
    v.pop()
}

/// Relies on heapless::Vec::swap_remove: returns the item at `i` and moves
/// the last item into its place.
#[verifier::external_body]
pub(crate) fn index_list_swap_remove(v: &mut IndexList, i: usize) -> (r: usize)
    requires
        i < index_list_items(*old(v)).len(),
    ensures
        r == index_list_items(*old(v))[i as int],
        index_list_items(*final(v)) == index_list_items(*old(v)).update(
            i as int,
            index_list_items(*old(v)).last(),
        ).drop_last(),
{
    v.swap_remove(i)
}

} // verus!
