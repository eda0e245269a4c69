//! The entries that fall due at one block, held in a vector with a fixed
//! ceiling.
use bounded_collections::{BoundedVec, ConstU32};
use vstd::prelude::*;

verus! {

/// `BoundedVec` of bounded-collections, whose inside Verus does not see.
#[verifier::external_type_specification]
#[verifier::external_body]
#[verifier::reject_recursive_types(T)]
#[verifier::reject_recursive_types(S)]
pub struct ExBoundedVec<T, S>(BoundedVec<T, S>);

/// `ConstU32` of bounded-collections, the bound of a `BoundedVec` as a type.
#[verifier::external_type_specification]
#[verifier::external_body]
pub struct ExConstU32<const N: u32>(ConstU32<N>);

/// No bucket ever holds more entries than this.
pub const BUCKET_CEILING: usize = 1000;

/// The entries of a bucket, in the order in which they were pushed.
pub uninterp spec fn bucket_items(bucket: BoundedVec<u128, ConstU32<1000>>) -> Seq<u128>;

/// `BoundedVec::new` of bounded-collections: a bucket without entries.
#[verifier::external_body]
pub(crate) fn bucket_new() -> (bucket: BoundedVec<u128, ConstU32<1000>>)
    ensures
        bucket_items(bucket) == Seq::<u128>::empty(),
{
    BoundedVec::new()
}

/// `Vec::len` through the `Deref` of `BoundedVec`: the number of entries.
#[verifier::external_body]
pub(crate) fn bucket_len(bucket: &BoundedVec<u128, ConstU32<1000>>) -> (n: usize)
    ensures
        n == bucket_items(*bucket).len(),
{
    bucket.len()
}

/// Indexing of `BoundedVec`, which indexes the inner vector: the entry at
/// `index`. The outside function panics past the end, which `requires` leaves
/// out.
#[verifier::external_body]
pub(crate) fn bucket_get(bucket: &BoundedVec<u128, ConstU32<1000>>, index: usize) -> (id: u128)
    requires
        index < bucket_items(*bucket).len(),
    ensures
        id == bucket_items(*bucket)[index as int],
{
    bucket[index]
}

/// `BoundedVec::try_push` of bounded-collections: appends the entry while the
/// bucket holds fewer than its bound of 1000, and otherwise leaves the bucket
/// as it was and reports the failure.
#[verifier::external_body]
pub(crate) fn bucket_try_push(
    bucket: &mut BoundedVec<u128, ConstU32<1000>>,
    id: u128,
) -> (pushed: bool)
    ensures
        pushed == (bucket_items(*old(bucket)).len() < BUCKET_CEILING),
        pushed ==> bucket_items(*final(bucket)) == bucket_items(*old(bucket)).push(id),
        !pushed ==> bucket_items(*final(bucket)) == bucket_items(*old(bucket)),
{
    bucket.try_push(id).is_ok()
}

/// `BoundedVec::remove` of bounded-collections, which is `Vec::remove`: takes
/// out the entry at `index` and closes the gap. The outside function panics
/// past the end, which `requires` leaves out.
#[verifier::external_body]
pub(crate) fn bucket_remove(
    bucket: &mut BoundedVec<u128, ConstU32<1000>>,
    index: usize,
) -> (id: u128)
    requires
        index < bucket_items(*old(bucket)).len(),
    ensures
        id == bucket_items(*old(bucket))[index as int],
        bucket_items(*final(bucket)) == bucket_items(*old(bucket)).remove(index as int),
{
    bucket.remove(index)
}

/// `BoundedVec::into_inner` of bounded-collections: the entries as a plain
/// vector, in the same order.
#[verifier::external_body]
pub(crate) fn bucket_into_inner(bucket: BoundedVec<u128, ConstU32<1000>>) -> (ids: Vec<u128>)
    ensures
        ids@ == bucket_items(bucket),
{
    bucket.into_inner()
}

} // verus!
