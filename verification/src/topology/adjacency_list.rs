//! The graph: for each source vertex, its weighted neighbours.

use vstd::multiset::Multiset;
use vstd::prelude::*;
use super::filing::{entries, lemma_entries_absent, lemma_entries_empty, lemma_entries_insert,
    lemma_entries_present, lemma_entries_replace, lemma_filed_lists, well_filed};
use super::listing::{lemma_lists_len, lists};
use super::graph::{edge_inserted, graph_extended, neighbours_merged, Graph};
use super::neighbour_table::{neighbour_filings, neighbours_find, neighbours_find_mut,
    neighbours_insert_unique, neighbours_into_iter, neighbours_iter, neighbours_new,
    NeighbourTable};
use super::weighted_vertices::WeightedVertices;
use super::weights::lemma_extended_is_merged;
use super::{VertexID, VertexWeight};
use crate::hashbrown_utils::{spec_vertex_hash, vertex_hash};

verus! {

/// Each item with the weight map that its neighbours stand for.
pub open spec fn neighbour_views(items: Seq<(VertexID, WeightedVertices)>) -> Seq<
    (VertexID, Map<VertexID, VertexWeight>),
> {
    Seq::new(items.len(), |i: int| (items[i].0, items[i].1@))
}

/// As [`neighbour_views`], of items that borrow their neighbours.
pub open spec fn borrowed_neighbour_views(items: Seq<(VertexID, &WeightedVertices)>) -> Seq<
    (VertexID, Map<VertexID, VertexWeight>),
> {
    Seq::new(items.len(), |i: int| (items[i].0, items[i].1@))
}

/// The graph that the filings of a neighbour table stand for.
spec fn graph_of(filings: Multiset<(u64, (u64, WeightedVertices))>) -> Graph {
    entries(filings).map_values(|n: WeightedVertices| n@)
}

/// All neighbours that the filings hold are well formed.
spec fn all_wf(filings: Multiset<(u64, (u64, WeightedVertices))>) -> bool {
    forall|f: (u64, (u64, WeightedVertices))| #[trigger] filings.contains(f) ==> f.1.1.wf()
}

/// What a filing that is present says of the graph.
proof fn lemma_graph_present(
    filings: Multiset<(u64, (u64, WeightedVertices))>,
    h: u64,
    k: VertexID,
    neighbours: WeightedVertices,
)
    requires
        well_filed(filings),
        all_wf(filings),
        filings.contains((h, (k, neighbours))),
    ensures
        neighbours.wf(),
        graph_of(filings).contains_key(k),
        graph_of(filings)[k] == neighbours@,
{
    lemma_entries_present(filings, h, k, neighbours);
}

/// What the graph becomes when the neighbours of a filing that is present
/// are exchanged in place.
proof fn lemma_graph_replace(
    filings: Multiset<(u64, (u64, WeightedVertices))>,
    h: u64,
    k: VertexID,
    before: WeightedVertices,
    after: WeightedVertices,
)
    requires
        well_filed(filings),
        all_wf(filings),
        filings.contains((h, (k, before))),
    ensures
        well_filed(filings.remove((h, (k, before))).insert((h, (k, after)))),
        after.wf() ==> all_wf(filings.remove((h, (k, before))).insert((h, (k, after)))),
        graph_of(filings.remove((h, (k, before))).insert((h, (k, after)))) == graph_of(
            filings,
        ).insert(k, after@),
{
    broadcast use vstd::multiset::group_multiset_axioms;

    lemma_entries_present(filings, h, k, before);
    lemma_entries_replace(filings, h, k, before, after);
    let exchanged = filings.remove((h, (k, before))).insert((h, (k, after)));
    assert(graph_of(exchanged) =~= graph_of(filings).insert(k, after@));
    assert forall|f: (u64, (u64, WeightedVertices))| #[trigger]
        exchanged.contains(f) implies f == (h, (k, after)) || filings.contains(f) by {
        if f != (h, (k, after)) {
            assert(exchanged.count(f) == filings.remove((h, (k, before))).count(f));
        }
    }
}

/// What the absence of a key says of the graph, and what the graph becomes
/// when neighbours are filed for that key.
proof fn lemma_graph_insert(
    filings: Multiset<(u64, (u64, WeightedVertices))>,
    k: VertexID,
    neighbours: WeightedVertices,
)
    requires
        well_filed(filings),
        all_wf(filings),
        forall|n: WeightedVertices| !filings.contains((spec_vertex_hash(k), (k, n))),
    ensures
        !graph_of(filings).contains_key(k),
        well_filed(filings.insert((spec_vertex_hash(k), (k, neighbours)))),
        neighbours.wf() ==> all_wf(filings.insert((spec_vertex_hash(k), (k, neighbours)))),
        graph_of(filings.insert((spec_vertex_hash(k), (k, neighbours)))) == graph_of(
            filings,
        ).insert(k, neighbours@),
{
    broadcast use vstd::multiset::group_multiset_axioms;

    lemma_entries_absent(filings, k);
    lemma_entries_insert(filings, k, neighbours);
    let grown = filings.insert((spec_vertex_hash(k), (k, neighbours)));
    assert(graph_of(grown) =~= graph_of(filings).insert(k, neighbours@));
    assert forall|f: (u64, (u64, WeightedVertices))| #[trigger]
        grown.contains(f) implies f == (spec_vertex_hash(k), (k, neighbours)) || filings.contains(
        f,
    ) by {}
}

/// The elements of a well-filed neighbour table, taken in any order, list
/// the graph that the table stands for, and each of them is well formed.
proof fn lemma_graph_lists(
    filings: Multiset<(u64, (u64, WeightedVertices))>,
    filed: Seq<(u64, (u64, WeightedVertices))>,
    items: Seq<(VertexID, WeightedVertices)>,
)
    requires
        well_filed(filings),
        all_wf(filings),
        filed.to_multiset() == filings,
        items.len() == filed.len(),
        forall|i: int| 0 <= i < filed.len() ==> items[i] == (#[trigger] filed[i]).1,
    ensures
        lists(neighbour_views(items), graph_of(filings)),
        forall|i: int| 0 <= i < items.len() ==> (#[trigger] items[i]).1.wf(),
{
    broadcast use vstd::seq_lib::group_to_multiset_ensures;

    lemma_filed_lists(filings, filed, items);
    let views = neighbour_views(items);
    let graph = graph_of(filings);
    assert forall|i: int| 0 <= i < views.len() implies graph.contains_key(#[trigger] views[i].0)
        && graph[views[i].0] == views[i].1 by {
        assert(entries(filings).contains_key(items[i].0));
    }
    assert forall|k: VertexID| #[trigger] graph.contains_key(k) implies exists|i: int|
        0 <= i < views.len() && #[trigger] views[i].0 == k by {
        assert(entries(filings).contains_key(k));
        let i = choose|i: int| 0 <= i < items.len() && #[trigger] items[i].0 == k;
        assert(views[i].0 == k);
    }
    assert forall|i: int, j: int| 0 <= i < j < views.len() implies views[i].0 != views[j].0 by {
        assert(items[i].0 != items[j].0);
    }
    assert forall|i: int| 0 <= i < items.len() implies (#[trigger] items[i]).1.wf() by {
        assert(filed.contains(filed[i]));
        assert(filings.contains(filed[i]));
    }
}

/// The graph, as a map from each source vertex to its weighted neighbours.
///
/// Only a vertex that some edge leaves has an entry: an edge does not give
/// its target an entry of its own.
pub struct AdjacencyList {
    vertices: NeighbourTable,
}

impl View for AdjacencyList {
    type V = Graph;

    /// The map from each source vertex to the weights of its edges.
    closed spec fn view(&self) -> Graph {
        graph_of(neighbour_filings(self.vertices))
    }
}

impl AdjacencyList {
    /// Each source vertex is stored once, where a lookup by its identifier
    /// finds it, and the neighbours of each are well formed themselves.
    pub closed spec fn wf(&self) -> bool {
        &&& well_filed(neighbour_filings(self.vertices))
        &&& all_wf(neighbour_filings(self.vertices))
    }

    /// Creates a graph without edges.
    pub fn new() -> (empty: Self)
        ensures
            empty.wf(),
            empty@ == Graph::empty(),
    {
        proof {
            lemma_entries_empty::<WeightedVertices>();
        }
        let empty = AdjacencyList { vertices: neighbours_new() };
        assert(empty@ =~= Graph::empty());
        empty
    }

    /// Counts one more edge from `from` to `to`: the weight of the edge grows
    /// by one, saturating, and is one where the edge is new. Only `from` gets
    /// an entry of its own where it had none.
    pub fn insert_edge(&mut self, from: VertexID, to: VertexID)
        requires
            old(self).wf(),
        ensures
            final(self).wf(),
            final(self)@ == edge_inserted(old(self)@, from, to),
    {
        let hash = vertex_hash(from);
        let ghost filings = neighbour_filings(self.vertices);
        match neighbours_find_mut(&mut self.vertices, hash, from) {
            Some(neighbouring_vertices) => {
                proof {
                    let before = *neighbouring_vertices;
                    let h = choose|h: u64| #[trigger] filings.contains((h, (from, before)));
                    lemma_graph_present(filings, h, from, before);
                    lemma_graph_replace(filings, h, from, before, *final(neighbouring_vertices));
                }
                neighbouring_vertices.increment_vertex_weight(to, 1)
            },
            None => {
                let mut neighbouring_vertices = WeightedVertices::new();
                neighbouring_vertices.set_vertex_weight(to, 1);
                proof {
                    lemma_graph_insert(filings, from, neighbouring_vertices);
                }
                neighbours_insert_unique(&mut self.vertices, hash, (from, neighbouring_vertices));
            },
        }
    }

    /// Looks up the neighbours of `vertex_id`.
    pub fn get_adjecent_vertices(&self, vertex_id: VertexID) -> (neighbours: Option<
        &WeightedVertices,
    >)
        requires
            self.wf(),
        ensures
            match neighbours {
                Some(n) => self@.contains_key(vertex_id) && n@ == self@[vertex_id] && n.wf(),
                None => !self@.contains_key(vertex_id),
            },
    {
        let found = neighbours_find(&self.vertices, vertex_hash(vertex_id), vertex_id);
        proof {
            let filings = neighbour_filings(self.vertices);
            match found {
                Some(n) => {
                    let h = choose|h: u64| #[trigger] filings.contains((h, (vertex_id, *n)));
                    lemma_graph_present(filings, h, vertex_id, *n);
                },
                None => {
                    lemma_entries_absent(filings, vertex_id);
                },
            }
        }
        found
    }

    /// Looks up the neighbours of `vertex_id`, for the caller to change in
    /// place. The graph stays well formed as long as the neighbours do.
    pub fn get_adjecent_vertices_mut(&mut self, vertex_id: VertexID) -> (neighbours: Option<
        &mut WeightedVertices,
    >)
        requires
            old(self).wf(),
        ensures
            match neighbours {
                Some(n) => {
                    &&& old(self)@.contains_key(vertex_id)
                    &&& n@ == old(self)@[vertex_id]
                    &&& n.wf()
                    &&& final(self)@ == old(self)@.insert(vertex_id, final(n)@)
                    &&& final(n).wf() ==> final(self).wf()
                },
                None => {
                    &&& !old(self)@.contains_key(vertex_id)
                    &&& final(self)@ == old(self)@
                    &&& final(self).wf()
                },
            },
    {
        let ghost filings = neighbour_filings(self.vertices);
        match neighbours_find_mut(&mut self.vertices, vertex_hash(vertex_id), vertex_id) {
            Some(n) => {
                proof {
                    let h = choose|h: u64| #[trigger] filings.contains((h, (vertex_id, *n)));
                    lemma_graph_present(filings, h, vertex_id, *n);
                    lemma_graph_replace(filings, h, vertex_id, *n, *final(n));
                }
                Some(n)
            },
            None => {
                proof {
                    lemma_entries_absent(filings, vertex_id);
                }
                None
            },
        }
    }

    /// Puts `neighbouring_vertices` in the place of whatever neighbours
    /// `vertex_id` had, and hands back what was there before, if anything was.
    pub fn set_adjacent_vertices(
        &mut self,
        vertex_id: VertexID,
        neighbouring_vertices: WeightedVertices,
    ) -> (previous: Option<WeightedVertices>)
        requires
            old(self).wf(),
            neighbouring_vertices.wf(),
        ensures
            final(self).wf(),
            final(self)@ == old(self)@.insert(vertex_id, neighbouring_vertices@),
            match previous {
                Some(p) => old(self)@.contains_key(vertex_id) && p@ == old(self)@[vertex_id]
                    && p.wf(),
                None => !old(self)@.contains_key(vertex_id),
            },
    {
        let hash = vertex_hash(vertex_id);
        let ghost filings = neighbour_filings(self.vertices);
        match neighbours_find_mut(&mut self.vertices, hash, vertex_id) {
            Some(n) => {
                proof {
                    let h = choose|h: u64| #[trigger] filings.contains((h, (vertex_id, *n)));
                    lemma_graph_present(filings, h, vertex_id, *n);
                    lemma_graph_replace(filings, h, vertex_id, *n, neighbouring_vertices);
                }
                let mut displaced = neighbouring_vertices;
                std::mem::swap(n, &mut displaced);
                Some(displaced)
            },
            None => {
                proof {
                    lemma_graph_insert(filings, vertex_id, neighbouring_vertices);
                }
                let entry = (vertex_id, neighbouring_vertices);
                neighbours_insert_unique(&mut self.vertices, hash, entry);
                None
            },
        }
    }

    /// The source vertices, each once and with its neighbours, in no particular order.
    pub fn iter(&self) -> (items: Vec<(VertexID, &WeightedVertices)>)
        requires
            self.wf(),
        ensures
            lists(borrowed_neighbour_views(items@), self@),
            items@.len() == self@.len(),
            forall|i: int| 0 <= i < items@.len() ==> (#[trigger] items@[i]).1.wf(),
    {
        let items = neighbours_iter(&self.vertices);
        proof {
            let filings = neighbour_filings(self.vertices);
            let filed = choose|filed: Seq<(u64, (u64, WeightedVertices))>| #[trigger]
                filed.to_multiset() == filings && filed.len() == items@.len() && forall|i: int|
                    0 <= i < filed.len() ==> (items@[i].0, *items@[i].1) == (#[trigger] filed[i]).1;
            let pairs = Seq::new(items@.len(), |i: int| (items@[i].0, *items@[i].1));
            lemma_graph_lists(filings, filed, pairs);
            assert(borrowed_neighbour_views(items@) =~= neighbour_views(pairs));
            assert forall|i: int| 0 <= i < items@.len() implies (#[trigger] items@[i]).1.wf() by {
                assert(pairs[i].1.wf());
            }
            lemma_lists_len(borrowed_neighbour_views(items@), self@);
        }
        items
    }

    /// Takes the graph apart into its source vertices, each once and with its
    /// neighbours, in no particular order.
    pub fn into_iter(self) -> (items: Vec<(VertexID, WeightedVertices)>)
        requires
            self.wf(),
        ensures
            lists(neighbour_views(items@), self@),
            items@.len() == self@.len(),
            forall|i: int| 0 <= i < items@.len() ==> (#[trigger] items@[i]).1.wf(),
    {
        let ghost filings = neighbour_filings(self.vertices);
        let items = neighbours_into_iter(self.vertices);
        proof {
            let filed = choose|filed: Seq<(u64, (u64, WeightedVertices))>| #[trigger]
                filed.to_multiset() == filings && filed.len() == items@.len() && forall|i: int|
                    0 <= i < filed.len() ==> items@[i] == (#[trigger] filed[i]).1;
            lemma_graph_lists(filings, filed, items@);
            lemma_lists_len(neighbour_views(items@), self@);
        }
        items
    }

    /// Merges `items` into the graph: each item, in turn, is merged into the
    /// neighbours that its vertex has, weights of the same edge adding up, or
    /// installed as it is where its vertex has none.
    pub fn extend(&mut self, items: Vec<(VertexID, WeightedVertices)>)
        requires
            old(self).wf(),
            forall|i: int| 0 <= i < items@.len() ==> (#[trigger] items@[i]).1.wf(),
        ensures
            final(self).wf(),
            final(self)@ == graph_extended(old(self)@, neighbour_views(items@)),
    {
        let ghost all = items@;
        let ghost views = neighbour_views(items@);
        for item in it: items
            invariant
                it.seq() == all,
                views == neighbour_views(all),
                forall|i: int| 0 <= i < all.len() ==> (#[trigger] all[i]).1.wf(),
                self.wf(),
                self@ == graph_extended(old(self)@, views.take(it.index())),
        {
            let ghost done = it.index();
            let ghost graph = self@;
            let (vertex_id, other) = item;
            let ghost incoming = other@;
            match self.get_adjecent_vertices_mut(vertex_id) {
                Some(neighbouring_vertices) => {
                    let ghost before = neighbouring_vertices@;
                    let pairs = other.into_iter();
                    neighbouring_vertices.extend(pairs);
                    proof {
                        lemma_extended_is_merged(before, incoming, pairs@);
                    }
                },
                None => {
                    self.set_adjacent_vertices(vertex_id, other);
                },
            }
            proof {
                let next = views.take(done + 1);
                assert(next.drop_last() == views.take(done));
                assert(next.last() == (vertex_id, incoming));
                assert(self@ == neighbours_merged(graph, vertex_id, incoming));
            }
        }
        proof {
            assert(views.take(views.len() as int) == views);
        }
    }
}

impl Default for AdjacencyList {
    /// The graph without edges.
    fn default() -> (empty: Self)
        ensures
            empty.wf(),
            empty@ == Graph::empty(),
    {
        AdjacencyList::new()
    }
}

} // verus!
