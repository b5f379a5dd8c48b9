//! The hash table behind [`AdjacencyList`](super::adjacency_list::AdjacencyList).
//!
//! Nothing in this file is proved. It declares the table, gives a name to what
//! the table holds, and states for each method of `hashbrown::HashTable` that
//! the library calls what that method does to the table and what it hands back.

use hashbrown::HashTable;
use vstd::multiset::Multiset;
use vstd::prelude::*;
use super::weighted_vertices::WeightedVertices;
use crate::hashbrown_utils::{equivalent_key, make_hash, spec_vertex_hash};

verus! {

/// A `hashbrown::HashTable` whose elements are pairs of a source vertex and
/// the neighbours of that vertex. The verifier does not look inside.
#[verifier::external_body]
pub struct NeighbourTable {
    table: HashTable<(u64, WeightedVertices)>,
}

/// What a neighbour table holds: every element, paired with the hash that it
/// was filed under when it was put into the table. An element that was put in
/// twice is held twice.
pub uninterp spec fn neighbour_filings(table: NeighbourTable) -> Multiset<
    (u64, (u64, WeightedVertices)),
>;

/// `HashTable::new`: a table that holds nothing.
#[verifier::external_body]
pub(crate) fn neighbours_new() -> (table: NeighbourTable)
    ensures
        neighbour_filings(table) == Multiset::<(u64, (u64, WeightedVertices))>::empty(),
{
    NeighbourTable { table: HashTable::new() }
}

/// `HashTable::find`, searching under `hash` for an element whose key is `id`,
/// and handing back the neighbours that the element found holds.
///
/// An element that is handed back is held by the table and has the key `id`;
/// the table may have found it under a hash other than `hash`. When nothing is
/// handed back, no element with the key `id` is filed under `hash`.
#[verifier::external_body]
pub(crate) fn neighbours_find(table: &NeighbourTable, hash: u64, id: u64) -> (found: Option<
    &WeightedVertices,
>)
    ensures
        match found {
            Some(neighbours) => exists|h: u64| #[trigger]
                neighbour_filings(*table).contains((h, (id, *neighbours))),
            None => forall|n: WeightedVertices|
                !#[trigger] neighbour_filings(*table).contains((hash, (id, n))),
        },
{
    table.table.find(hash, |entry| equivalent_key(id, entry)).map(|entry| &entry.1)
}

/// `HashTable::find_mut`, searching as [`neighbours_find`] does, and handing
/// back the neighbours of the element found for the caller to change in place.
///
/// The element stays filed where it was: once the caller is done with the
/// neighbours, the table holds the same filings as before, but for the
/// neighbours of that one element. When nothing is handed back, the table is
/// unchanged.
#[verifier::external_body]
pub(crate) fn neighbours_find_mut(table: &mut NeighbourTable, hash: u64, id: u64) -> (found:
    Option<&mut WeightedVertices>)
    ensures
        match found {
            Some(neighbours) => exists|h: u64| #[trigger]
                neighbour_filings(*old(table)).contains((h, (id, *neighbours)))
                    && neighbour_filings(*final(table)) == neighbour_filings(*old(table)).remove(
                    (h, (id, *neighbours)),
                ).insert((h, (id, *final(neighbours)))),
            None => neighbour_filings(*final(table)) == neighbour_filings(*old(table))
                && forall|n: WeightedVertices|
                !#[trigger] neighbour_filings(*old(table)).contains((hash, (id, n))),
        },
{
    table.table.find_mut(hash, |entry| equivalent_key(id, entry)).map(|entry| &mut entry.1)
}

/// `HashTable::insert_unique`, filing `entry` under `hash` without looking for
/// an element with the same key.
///
/// To make room the table may move its elements, and asks
/// [`make_hash`](crate::hashbrown_utils::make_hash) where each one belongs; so
/// every element must already be filed under the hash that `make_hash` gives
/// it. Making room allocates, and like any allocation ends the process when
/// no memory is left.
#[verifier::external_body]
pub(crate) fn neighbours_insert_unique(
    table: &mut NeighbourTable,
    hash: u64,
    entry: (u64, WeightedVertices),
)
    requires
        forall|f: (u64, (u64, WeightedVertices))| #[trigger]
            neighbour_filings(*old(table)).contains(f) ==> f.0 == spec_vertex_hash(f.1.0),
    ensures
        neighbour_filings(*final(table)) == neighbour_filings(*old(table)).insert((hash, entry)),
{
    table.table.insert_unique(hash, entry, |entry| make_hash(entry));
}

/// `HashTable::iter`, collected: the elements of the table, each once for
/// every time it is held, in the order in which the table happens to keep
/// them. Of each element the key is copied and the neighbours are borrowed.
#[verifier::external_body]
pub(crate) fn neighbours_iter(table: &NeighbourTable) -> (items: Vec<(u64, &WeightedVertices)>)
    ensures
        exists|filed: Seq<(u64, (u64, WeightedVertices))>| #[trigger]
            filed.to_multiset() == neighbour_filings(*table) && filed.len() == items@.len()
                && forall|i: int|
                0 <= i < filed.len() ==> (items@[i].0, *items@[i].1) == (#[trigger] filed[i]).1,
{
    table.table.iter().map(|entry| (entry.0, &entry.1)).collect()
}

/// `HashTable::into_iter`, collected: the elements of the table, each once
/// for every time it is held, moved out in the order in which the table
/// happens to keep them.
#[verifier::external_body]
pub(crate) fn neighbours_into_iter(table: NeighbourTable) -> (items: Vec<(u64, WeightedVertices)>)
    ensures
        exists|filed: Seq<(u64, (u64, WeightedVertices))>| #[trigger]
            filed.to_multiset() == neighbour_filings(table) && filed.len() == items@.len()
                && forall|i: int| 0 <= i < filed.len() ==> items@[i] == (#[trigger] filed[i]).1,
{
    table.table.into_iter().collect()
}

} // verus!
