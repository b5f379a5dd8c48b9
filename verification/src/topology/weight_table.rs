//! The hash table behind [`WeightedVertices`](super::weighted_vertices::WeightedVertices).
//!
//! Nothing in this file is proved. It declares the table, gives a name to what
//! the table holds, and states for each method of `hashbrown::HashTable` that
//! the library calls what that method does to the table and what it hands back.

use hashbrown::HashTable;
use vstd::multiset::Multiset;
use vstd::prelude::*;
use crate::hashbrown_utils::{equivalent_key, make_hash, spec_vertex_hash};

verus! {

/// A `hashbrown::HashTable` whose elements are pairs of a neighbour and the
/// weight of the edge to it. The verifier does not look inside.
#[verifier::external_body]
pub struct WeightTable {
    table: HashTable<(u64, u64)>,
}

/// What a weight table holds: every element, paired with the hash that it was
/// filed under when it was put into the table. An element that was put in
/// twice is held twice.
pub uninterp spec fn weight_filings(table: WeightTable) -> Multiset<(u64, (u64, u64))>;

/// `HashTable::new`: a table that holds nothing.
#[verifier::external_body]
pub(crate) fn weights_new() -> (table: WeightTable)
    ensures
        weight_filings(table) == Multiset::<(u64, (u64, u64))>::empty(),
{
    WeightTable { table: HashTable::new() }
}

/// `HashTable::find`, searching under `hash` for an element whose key is `id`,
/// and handing back the weight of the element found.
///
/// An element that is handed back is held by the table and has the key `id`;
/// the table may have found it under a hash other than `hash`. When nothing is
/// handed back, no element with the key `id` is filed under `hash`.
#[verifier::external_body]
pub(crate) fn weights_find(table: &WeightTable, hash: u64, id: u64) -> (found: Option<&u64>)
    ensures
        match found {
            Some(weight) => exists|h: u64| #[trigger]
                weight_filings(*table).contains((h, (id, *weight))),
            None => forall|w: u64| !#[trigger] weight_filings(*table).contains((hash, (id, w))),
        },
{
    table.table.find(hash, |entry| equivalent_key(id, entry)).map(|entry| &entry.1)
}

/// `HashTable::find_mut`, searching as [`weights_find`] does, and handing back
/// the weight of the element found for the caller to change in place.
///
/// The element stays filed where it was: once the caller is done with the
/// weight, the table holds the same filings as before, but for the weight of
/// that one element. When nothing is handed back, the table is unchanged.
#[verifier::external_body]
pub(crate) fn weights_find_mut(table: &mut WeightTable, hash: u64, id: u64) -> (found: Option<
    &mut u64,
>)
    ensures
        match found {
            Some(weight) => exists|h: u64| #[trigger]
                weight_filings(*old(table)).contains((h, (id, *weight))) && weight_filings(
                    *final(table),
                ) == weight_filings(*old(table)).remove((h, (id, *weight))).insert(
                    (h, (id, *final(weight))),
                ),
            None => weight_filings(*final(table)) == weight_filings(*old(table)) && forall|w: u64|
                !#[trigger] weight_filings(*old(table)).contains((hash, (id, w))),
        },
{
    table.table.find_mut(hash, |entry| equivalent_key(id, entry)).map(|entry| &mut entry.1)
}

/// `HashTable::insert_unique`, filing `entry` under `hash` without looking for
/// an element with the same key.
///
/// To make room the table may move its elements, and asks
/// [`make_hash`](crate::hashbrown_utils::make_hash) where each one belongs; so
/// every element must already be filed under the hash that `make_hash` gives
/// it. Making room allocates, and like any allocation ends the process when
/// no memory is left.
#[verifier::external_body]
pub(crate) fn weights_insert_unique(table: &mut WeightTable, hash: u64, entry: (u64, u64))
    requires
        forall|f: (u64, (u64, u64))| #[trigger]
            weight_filings(*old(table)).contains(f) ==> f.0 == spec_vertex_hash(f.1.0),
    ensures
        weight_filings(*final(table)) == weight_filings(*old(table)).insert((hash, entry)),
{
    table.table.insert_unique(hash, entry, |entry| make_hash(entry));
}

/// `HashTable::iter`, collected: the elements of the table, each once for
/// every time it is held, in the order in which the table happens to keep them.
#[verifier::external_body]
pub(crate) fn weights_iter(table: &WeightTable) -> (items: Vec<(u64, u64)>)
    ensures
        exists|filed: Seq<(u64, (u64, u64))>| #[trigger]
            filed.to_multiset() == weight_filings(*table) && filed.len() == items@.len()
                && forall|i: int| 0 <= i < filed.len() ==> items@[i] == (#[trigger] filed[i]).1,
{
    table.table.iter().copied().collect()
}

/// `HashTable::into_iter`, collected: the elements of the table, each once
/// for every time it is held, moved out in the order in which the table
/// happens to keep them.
#[verifier::external_body]
pub(crate) fn weights_into_iter(table: WeightTable) -> (items: Vec<(u64, u64)>)
    ensures
        exists|filed: Seq<(u64, (u64, u64))>| #[trigger]
            filed.to_multiset() == weight_filings(table) && filed.len() == items@.len()
                && forall|i: int| 0 <= i < filed.len() ==> items@[i] == (#[trigger] filed[i]).1,
{
    table.table.into_iter().collect()
}

} // verus!
