//! The mathematics of a keyed table.
//!
//! A table holds filings: an element, made of a key and a value, together
//! with the hash that it was filed under. A table is only searched among the
//! filings of one hash, so a lookup by key is reliable exactly when every
//! element is filed under the hash of its key and no key is filed twice. This
//! module states that condition and the map from keys to values that such a
//! table stands for.

use vstd::prelude::*;
use vstd::multiset::Multiset;
use super::listing::lists;
use crate::hashbrown_utils::spec_vertex_hash;

verus! {

broadcast use vstd::multiset::group_multiset_axioms;

/// Every element is filed under the hash of its key, and each key is filed once.
pub open spec fn well_filed<V>(filings: Multiset<(u64, (u64, V))>) -> bool {
    &&& forall|f: (u64, (u64, V))| #[trigger]
        filings.contains(f) ==> f.0 == spec_vertex_hash(f.1.0)
    &&& forall|f: (u64, (u64, V))| #[trigger] filings.count(f) <= 1
    &&& forall|f: (u64, (u64, V)), g: (u64, (u64, V))|
        #[trigger] filings.contains(f) && #[trigger] filings.contains(g) && f.1.0 == g.1.0 ==> f
            == g
}

/// Whether some filing has the key `k`.
pub open spec fn has_key<V>(filings: Multiset<(u64, (u64, V))>, k: u64) -> bool {
    exists|f: (u64, (u64, V))| #[trigger] filings.contains(f) && f.1.0 == k
}

/// The map from keys to values that the filings stand for.
pub open spec fn entries<V>(filings: Multiset<(u64, (u64, V))>) -> Map<u64, V> {
    Map::new(
        |k: u64| has_key(filings, k),
        |k: u64| (choose|f: (u64, (u64, V))| #[trigger] filings.contains(f) && f.1.0 == k).1.1,
    )
}

/// An empty table is well filed and stands for the empty map.
pub proof fn lemma_entries_empty<V>()
    ensures
        well_filed(Multiset::<(u64, (u64, V))>::empty()),
        entries(Multiset::<(u64, (u64, V))>::empty()) == Map::<u64, V>::empty(),
{
    assert(entries(Multiset::<(u64, (u64, V))>::empty()) =~= Map::<u64, V>::empty());
}

/// A filing that is present determines what its key maps to.
pub proof fn lemma_entries_present<V>(filings: Multiset<(u64, (u64, V))>, h: u64, k: u64, v: V)
    requires
        well_filed(filings),
        filings.contains((h, (k, v))),
    ensures
        h == spec_vertex_hash(k),
        entries(filings).contains_key(k),
        entries(filings)[k] == v,
{
    let f = (h, (k, v));
    assert(filings.contains(f) && f.1.0 == k);
}

/// A key with no filing under its own hash has no filing at all.
pub proof fn lemma_entries_absent<V>(filings: Multiset<(u64, (u64, V))>, k: u64)
    requires
        well_filed(filings),
        forall|v: V| !filings.contains((spec_vertex_hash(k), (k, v))),
    ensures
        !entries(filings).contains_key(k),
{
    if has_key(filings, k) {
        let f = choose|f: (u64, (u64, V))| #[trigger] filings.contains(f) && f.1.0 == k;
        assert(f == (spec_vertex_hash(k), (k, f.1.1)));
    }
}

/// Filing a new key under its own hash adds that key to the map.
pub proof fn lemma_entries_insert<V>(filings: Multiset<(u64, (u64, V))>, k: u64, v: V)
    requires
        well_filed(filings),
        !entries(filings).contains_key(k),
    ensures
        well_filed(filings.insert((spec_vertex_hash(k), (k, v)))),
        entries(filings.insert((spec_vertex_hash(k), (k, v)))) == entries(filings).insert(k, v),
{
    let new = (spec_vertex_hash(k), (k, v));
    let after = filings.insert(new);
    assert forall|f: (u64, (u64, V))| #[trigger] after.contains(f) implies f == new
        || filings.contains(f) by {}
    assert forall|f: (u64, (u64, V))| filings.contains(f) implies f.1.0 != k by {
        if f.1.0 == k {
            assert(has_key(filings, k));
        }
    }
    assert(filings.count(new) == 0) by {
        if filings.contains(new) {
            assert(has_key(filings, k));
        }
    }
    assert(well_filed(after));
    assert forall|j: u64| has_key(after, j) <==> (j == k || has_key(filings, j)) by {
        if has_key(after, j) {
            let f = choose|f: (u64, (u64, V))| #[trigger] after.contains(f) && f.1.0 == j;
            if f != new {
                assert(filings.contains(f) && f.1.0 == j);
            }
        }
        if j == k {
            assert(after.contains(new) && new.1.0 == j);
        }
        if has_key(filings, j) {
            let f = choose|f: (u64, (u64, V))| #[trigger] filings.contains(f) && f.1.0 == j;
            assert(after.contains(f) && f.1.0 == j);
        }
    }
    assert forall|j: u64| has_key(after, j) implies #[trigger] entries(after)[j] == entries(
        filings,
    ).insert(k, v)[j] by {
        let f = choose|f: (u64, (u64, V))| #[trigger] after.contains(f) && f.1.0 == j;
        if j == k {
            assert(after.contains(new));
            assert(f == new);
        } else {
            let g = choose|g: (u64, (u64, V))| #[trigger] filings.contains(g) && g.1.0 == j;
            assert(after.contains(g));
            assert(f == g);
        }
    }
    assert(entries(after) =~= entries(filings).insert(k, v));
}

/// Replacing the value of a filing in place changes what its key maps to and
/// nothing else.
pub proof fn lemma_entries_replace<V>(
    filings: Multiset<(u64, (u64, V))>,
    h: u64,
    k: u64,
    v: V,
    w: V,
)
    requires
        well_filed(filings),
        filings.contains((h, (k, v))),
    ensures
        well_filed(filings.remove((h, (k, v))).insert((h, (k, w)))),
        entries(filings.remove((h, (k, v))).insert((h, (k, w)))) == entries(filings).insert(k, w),
{
    let gone = (h, (k, v));
    let without = filings.remove(gone);
    assert(filings.count(gone) == 1);
    assert(without.count(gone) == 0);
    assert forall|f: (u64, (u64, V))|
        without.contains(f) <==> (filings.contains(f) && f != gone) by {}
    assert(well_filed(without));
    assert(!has_key(without, k)) by {
        if has_key(without, k) {
            let f = choose|f: (u64, (u64, V))| #[trigger] without.contains(f) && f.1.0 == k;
            assert(filings.contains(f) && filings.contains(gone));
        }
    }
    assert forall|j: u64| j != k implies (has_key(without, j) <==> has_key(filings, j)) by {
        if has_key(without, j) {
            let f = choose|f: (u64, (u64, V))| #[trigger] without.contains(f) && f.1.0 == j;
            assert(filings.contains(f) && f.1.0 == j);
        }
        if has_key(filings, j) {
            let f = choose|f: (u64, (u64, V))| #[trigger] filings.contains(f) && f.1.0 == j;
            assert(without.contains(f) && f.1.0 == j);
        }
    }
    assert forall|j: u64| j != k && has_key(filings, j) implies #[trigger] entries(without)[j]
        == entries(filings)[j] by {
        let f = choose|f: (u64, (u64, V))| #[trigger] filings.contains(f) && f.1.0 == j;
        let g = choose|g: (u64, (u64, V))| #[trigger] without.contains(g) && g.1.0 == j;
        assert(without.contains(f) && f.1.0 == j);
        assert(filings.contains(g));
    }
    lemma_entries_present(filings, h, k, v);
    assert(entries(without) =~= entries(filings).remove(k));
    lemma_entries_insert(without, k, w);
    assert(entries(filings).remove(k).insert(k, w) =~= entries(filings).insert(k, w));
}

/// The elements of a well-filed table, taken in any order, list the map that
/// the table stands for.
pub proof fn lemma_filed_lists<V>(
    filings: Multiset<(u64, (u64, V))>,
    filed: Seq<(u64, (u64, V))>,
    pairs: Seq<(u64, V)>,
)
    requires
        well_filed(filings),
        filed.to_multiset() == filings,
        pairs.len() == filed.len(),
        forall|i: int| 0 <= i < filed.len() ==> pairs[i] == (#[trigger] filed[i]).1,
    ensures
        lists(pairs, entries(filings)),
{
    broadcast use vstd::seq_lib::group_to_multiset_ensures;

    assert forall|i: int| 0 <= i < filed.len() implies filings.contains(#[trigger] filed[i]) by {
        assert(filed.contains(filed[i]));
    }
    assert(filed.no_duplicates()) by {
        filed.lemma_multiset_has_no_duplicates_conv();
    }
    assert forall|i: int, j: int| 0 <= i < j < pairs.len() implies pairs[i].0 != pairs[j].0 by {
        assert(filings.contains(filed[i]) && filings.contains(filed[j]));
    }
    assert forall|i: int| 0 <= i < pairs.len() implies entries(filings).contains_key(
        #[trigger] pairs[i].0,
    ) && entries(filings)[pairs[i].0] == pairs[i].1 by {
        assert(filings.contains(filed[i]));
        lemma_entries_present(filings, filed[i].0, filed[i].1.0, filed[i].1.1);
    }
    assert forall|k: u64| #[trigger] entries(filings).contains_key(k) implies exists|i: int|
        0 <= i < pairs.len() && #[trigger] pairs[i].0 == k by {
        let f = choose|f: (u64, (u64, V))| #[trigger] filings.contains(f) && f.1.0 == k;
        assert(filed.contains(f));
        let i = choose|i: int| 0 <= i < filed.len() && filed[i] == f;
        assert(pairs[i].0 == k);
    }
}

} // verus!
