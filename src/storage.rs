//! Fixed-capacity byte storage, held in a `heapless::Vec` so that it never reallocates.
use vstd::prelude::*;

verus! {

/// The most bytes a storage block holds.
pub const STORAGE_BYTES: usize = 2048;

/// `heapless::Vec`, held opaquely: what it holds is known only through `stored`.
#[verifier::external_type_specification]
#[verifier::external_body]
#[verifier::reject_recursive_types(T)]
pub struct ExFixedVec<T, const N: usize>(heapless::Vec<T, N>);

/// The bytes a storage block holds.
pub uninterp spec fn stored(v: heapless::Vec<u8, 2048>) -> Seq<u8>;

/// Relies on `heapless::Vec::new`: the vector starts empty.
#[verifier::external_body]
pub(crate) fn storage_new() -> (r: heapless::Vec<u8, 2048>)
    ensures
        stored(r) == Seq::<u8>::empty(),
{
    heapless::Vec::new()
}

/// Relies on `heapless::Vec::extend_from_slice`: when the slice fits beside what is held it is
/// appended and `Ok` returned; otherwise nothing changes and `Err` is returned.
#[verifier::external_body]
pub(crate) fn storage_extend(v: &mut heapless::Vec<u8, 2048>, s: &[u8]) -> (r: bool)
    ensures
        r == (stored(*old(v)).len() + s@.len() <= STORAGE_BYTES),
        r ==> stored(*final(v)) == stored(*old(v)) + s@,
        !r ==> stored(*final(v)) == stored(*old(v)),
{
    v.extend_from_slice(s).is_ok()
}

/// Relies on `heapless::Vec::as_slice`: the slice holds the vector's elements in order.
#[verifier::external_body]
pub(crate) fn storage_bytes(v: &heapless::Vec<u8, 2048>) -> (r: &[u8])
    ensures
        r@ == stored(*v),
{
    v.as_slice()
}

} // verus!
