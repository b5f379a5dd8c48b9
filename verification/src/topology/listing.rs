//! Lists of a map: what iteration over a structure hands out.
//!
//! A structure that stands for a map is iterated in an order that nothing
//! fixes. What is fixed is that the pairs handed out list the map.

use vstd::prelude::*;

verus! {

/// `pairs` lists the map `entries`: every key of the map once, with what it
/// maps to, and nothing else. The order of the list is left open.
pub open spec fn lists<V>(pairs: Seq<(u64, V)>, entries: Map<u64, V>) -> bool {
    &&& forall|i: int, j: int| 0 <= i < j < pairs.len() ==> pairs[i].0 != pairs[j].0
    &&& forall|i: int|
        0 <= i < pairs.len() ==> entries.contains_key(#[trigger] pairs[i].0) && entries[pairs[i].0]
            == pairs[i].1
    &&& forall|k: u64| #[trigger]
        entries.contains_key(k) ==> exists|i: int|
            0 <= i < pairs.len() && #[trigger] pairs[i].0 == k
}

/// A list without its last pair lists the map without the key of that pair.
pub proof fn lemma_lists_drop_last<V>(pairs: Seq<(u64, V)>, entries: Map<u64, V>)
    requires
        lists(pairs, entries),
        pairs.len() > 0,
    ensures
        lists(pairs.drop_last(), entries.remove(pairs.last().0)),
{
    let before = pairs.drop_last();
    let rest = entries.remove(pairs.last().0);
    assert forall|i: int| 0 <= i < before.len() implies rest.contains_key(#[trigger] before[i].0)
        && rest[before[i].0] == before[i].1 by {
        assert(before[i] == pairs[i]);
    }
    assert forall|k: u64| #[trigger] rest.contains_key(k) implies exists|i: int|
        0 <= i < before.len() && #[trigger] before[i].0 == k by {
        assert(entries.contains_key(k));
        let i = choose|i: int| 0 <= i < pairs.len() && #[trigger] pairs[i].0 == k;
        assert(before[i].0 == k);
    }
}

/// A list of a map is as long as the map is large; a map that has a list is finite.
pub proof fn lemma_lists_len<V>(pairs: Seq<(u64, V)>, entries: Map<u64, V>)
    requires
        lists(pairs, entries),
    ensures
        entries.dom().finite(),
        entries.len() == pairs.len(),
{
    broadcast use vstd::seq_lib::group_seq_properties;

    let keys = pairs.map_values(|p: (u64, V)| p.0);
    assert(keys.no_duplicates());
    assert forall|k: u64| keys.to_set().contains(k) <==> entries.dom().contains(k) by {
        if keys.contains(k) {
            let i = choose|i: int| 0 <= i < keys.len() && keys[i] == k;
            assert(pairs[i].0 == k);
        }
        if entries.contains_key(k) {
            let i = choose|i: int| 0 <= i < pairs.len() && #[trigger] pairs[i].0 == k;
            assert(keys[i] == k);
        }
    }
    assert(keys.to_set() =~= entries.dom());
    vstd::seq_lib::seq_to_set_is_finite(keys);
    keys.unique_seq_to_set();
}

} // verus!
