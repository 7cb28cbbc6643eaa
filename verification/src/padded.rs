//! Bindings for crossbeam's cache-line padding wrapper.
//!
//! The ring cursors each live on a cache line of their own so that
//! producers hammering the tail do not invalidate the consumers' line
//! holding the head. The wrapper type is opaque here; these bindings
//! expose only the one value it stores.

use vstd::prelude::*;

verus! {

#[verifier::external_type_specification]
#[verifier::external_body]
#[verifier::reject_recursive_types(T)]
pub struct ExCachePadded<T>(crossbeam_utils::CachePadded<T>);

/// The cursor value stored inside a padded word.
pub uninterp spec fn padded_value(c: crossbeam_utils::CachePadded<u64>) -> u64;

/// Relies on crossbeam_utils::CachePadded::new: it stores the given value.
#[verifier::external_body]
pub(crate) fn padded_new(v: u64) -> (c: crossbeam_utils::CachePadded<u64>)
    ensures
        padded_value(c) == v,
{
    crossbeam_utils::CachePadded::new(v)
}

/// Relies on crossbeam_utils::CachePadded's Deref: it hands back the stored value.
#[verifier::external_body]
pub(crate) fn padded_read(c: &crossbeam_utils::CachePadded<u64>) -> (v: u64)
    ensures
        v == padded_value(*c),
{
    **c
}

/// Relies on crossbeam_utils::CachePadded's DerefMut: it overwrites the stored value.
#[verifier::external_body]
pub(crate) fn padded_write(c: &mut crossbeam_utils::CachePadded<u64>, v: u64)
    ensures
        padded_value(*final(c)) == v,
{
    **c = v;
}

} // verus!
