//! Hashing and key comparison for the tables that the graph structures keep.
//!
//! A table looks an element up by a hash and a predicate. Both are fixed here:
//! the hash of an element is the hash of its key, and an element matches a
//! candidate key when its own key equals it.

use vstd::prelude::*;

verus! {

/// Odd multiplier close to 2^64 divided by the golden ratio.
pub const HASH_MULTIPLIER: u64 = 0x9E37_79B9_7F4A_7C15;

/// The hash of a vertex identifier: a wrapping multiplication that spreads
/// the low bits upwards, then a fold of the high half onto the low half.
pub open spec fn spec_vertex_hash(id: u64) -> u64 {
    let mixed = id.wrapping_mul(HASH_MULTIPLIER);
    mixed ^ (mixed >> 32)
}

/// Computes the hash under which every element keyed by `id` is filed.
pub fn vertex_hash(id: u64) -> (hash: u64)
    ensures
        hash == spec_vertex_hash(id),
{
    let mixed = id.wrapping_mul(HASH_MULTIPLIER);
    mixed ^ (mixed >> 32)
}

/// The hash of a stored element, which is the hash of its key alone.
pub fn make_hash<V>(entry: &(u64, V)) -> (hash: u64)
    ensures
        hash == spec_vertex_hash(entry.0),
{
    vertex_hash(entry.0)
}

/// Tells whether a stored element is the one that belongs to the key `id`.
pub fn equivalent_key<V>(id: u64, entry: &(u64, V)) -> (same: bool)
    ensures
        same == (entry.0 == id),
{
    entry.0 == id
}

} // verus!
