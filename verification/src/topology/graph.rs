//! The mathematics of the graph: what inserting an edge and merging
//! neighbours do to it, and the laws that hold of them.

use vstd::prelude::*;
use super::listing::{lemma_lists_drop_last, lists};
use super::weights::{incremented, lemma_merged_associative, lemma_merged_commutative, merged,
    weight_sum};
use super::{VertexID, VertexWeight};

verus! {

/// A graph as a map from each source vertex to the weights of its edges.
pub type Graph = Map<VertexID, Map<VertexID, VertexWeight>>;

/// The graph after one more edge from `from` to `to` was counted: the weight
/// of that edge grows by one, and starts at one where the edge is new.
pub open spec fn edge_inserted(graph: Graph, from: VertexID, to: VertexID) -> Graph {
    if graph.contains_key(from) {
        graph.insert(from, incremented(graph[from], to, 1))
    } else {
        graph.insert(from, Map::<VertexID, VertexWeight>::empty().insert(to, 1))
    }
}

/// The graph after `neighbours` was merged into what `vertex_id` has: merged
/// into its neighbours where it has any, installed as they are where it has none.
pub open spec fn neighbours_merged(
    graph: Graph,
    vertex_id: VertexID,
    neighbours: Map<VertexID, VertexWeight>,
) -> Graph {
    if graph.contains_key(vertex_id) {
        graph.insert(vertex_id, merged(graph[vertex_id], neighbours))
    } else {
        graph.insert(vertex_id, neighbours)
    }
}

/// The graph after each item of `items`, from the first to the last, was
/// merged in as [`neighbours_merged`] merges one.
pub open spec fn graph_extended(
    graph: Graph,
    items: Seq<(VertexID, Map<VertexID, VertexWeight>)>,
) -> Graph
    decreases items.len(),
{
    if items.len() == 0 {
        graph
    } else {
        neighbours_merged(graph_extended(graph, items.drop_last()), items.last().0, items.last().1)
    }
}

/// The merge of two graphs: a vertex of both has the merge of its two sets of
/// neighbours, a vertex of one keeps the neighbours it has there.
pub open spec fn graphs_merged(left: Graph, right: Graph) -> Graph {
    Map::new(
        |v: VertexID| left.contains_key(v) || right.contains_key(v),
        |v: VertexID|
            if left.contains_key(v) && right.contains_key(v) {
                merged(left[v], right[v])
            } else if left.contains_key(v) {
                left[v]
            } else {
                right[v]
            },
    )
}

/// Whether `graph` has an edge from `from` to `to`, of whatever weight.
pub open spec fn has_edge(graph: Graph, from: VertexID, to: VertexID) -> bool {
    graph.contains_key(from) && graph[from].contains_key(to)
}

/// The weight that `graph` has for the edge from `from` to `to`, an edge
/// that it does not have counting as one of weight zero.
pub open spec fn edge_weight(graph: Graph, from: VertexID, to: VertexID) -> VertexWeight {
    if has_edge(graph, from, to) {
        graph[from][to]
    } else {
        0
    }
}

/// The graph after each edge of `edges`, from the first to the last, was
/// counted as [`edge_inserted`] counts one.
pub open spec fn edges_inserted(graph: Graph, edges: Seq<(VertexID, VertexID)>) -> Graph
    decreases edges.len(),
{
    if edges.len() == 0 {
        graph
    } else {
        edge_inserted(edges_inserted(graph, edges.drop_last()), edges.last().0, edges.last().1)
    }
}

/// How often the edge from `from` to `to` occurs in `edges`.
pub open spec fn occurrences(edges: Seq<(VertexID, VertexID)>, from: VertexID, to: VertexID) -> nat
    decreases edges.len(),
{
    if edges.len() == 0 {
        0
    } else if edges.last() == (from, to) {
        occurrences(edges.drop_last(), from, to) + 1
    } else {
        occurrences(edges.drop_last(), from, to)
    }
}

/// Whether some edge of `edges` leaves the vertex `from`.
pub open spec fn leaves(edges: Seq<(VertexID, VertexID)>, from: VertexID) -> bool {
    exists|i: int| 0 <= i < edges.len() && (#[trigger] edges[i]).0 == from
}

/// A count as a weight: the count itself, or the largest weight where the
/// count is beyond it.
pub open spec fn saturated(count: int) -> VertexWeight {
    if count > VertexWeight::MAX {
        VertexWeight::MAX
    } else {
        count as VertexWeight
    }
}

/// The graph that is built from nothing by putting each item of `items`, from
/// the first to the last, in the place of what its vertex had.
pub open spec fn rebuilt(items: Seq<(VertexID, Map<VertexID, VertexWeight>)>) -> Graph
    decreases items.len(),
{
    if items.len() == 0 {
        Graph::empty()
    } else {
        rebuilt(items.drop_last()).insert(items.last().0, items.last().1)
    }
}

/// Inserting an edge: afterwards its source has an entry and the edge has a
/// weight, one more than before and exactly one where the edge is new. No
/// other edge changes, and no vertex but the source gains an entry; the
/// target, in particular, gains none.
pub proof fn lemma_edge_inserted(graph: Graph, from: VertexID, to: VertexID)
    ensures
        has_edge(edge_inserted(graph, from, to), from, to),
        edge_weight(edge_inserted(graph, from, to), from, to) == weight_sum(
            edge_weight(graph, from, to),
            1,
        ),
        !has_edge(graph, from, to) ==> edge_weight(edge_inserted(graph, from, to), from, to) == 1,
        forall|a: VertexID, b: VertexID|
            (a, b) != (from, to) ==> has_edge(edge_inserted(graph, from, to), a, b) == has_edge(
                graph,
                a,
                b,
            ) && edge_weight(edge_inserted(graph, from, to), a, b) == edge_weight(graph, a, b),
        forall|v: VertexID|
            v != from ==> edge_inserted(graph, from, to).contains_key(v) == graph.contains_key(v),
{
}

/// Weights accumulate: after a sequence of edges was inserted, the weight of
/// an edge is what it was before plus the number of times that the edge
/// occurs in the sequence, whatever other edges are interleaved with it; the
/// sum stays at the largest weight once it is reached. A vertex has an entry
/// exactly if it had one before or some edge of the sequence leaves it.
pub proof fn lemma_edges_inserted(
    graph: Graph,
    edges: Seq<(VertexID, VertexID)>,
    from: VertexID,
    to: VertexID,
)
    ensures
        edge_weight(edges_inserted(graph, edges), from, to) == saturated(
            edge_weight(graph, from, to) + occurrences(edges, from, to),
        ),
        has_edge(edges_inserted(graph, edges), from, to) <==> has_edge(graph, from, to)
            || occurrences(edges, from, to) > 0,
        edges_inserted(graph, edges).contains_key(from) <==> graph.contains_key(from) || leaves(
            edges,
            from,
        ),
    decreases edges.len(),
{
    if edges.len() > 0 {
        let before = edges.drop_last();
        let last = edges.last();
        lemma_edges_inserted(graph, before, from, to);
        lemma_edge_inserted(edges_inserted(graph, before), last.0, last.1);
        if leaves(before, from) {
            let i = choose|i: int| 0 <= i < before.len() && (#[trigger] before[i]).0 == from;
            assert(edges[i].0 == from);
        }
        if last.0 == from {
            assert(edges[edges.len() - 1].0 == from);
        }
        if leaves(edges, from) && last.0 != from {
            let i = choose|i: int| 0 <= i < edges.len() && (#[trigger] edges[i]).0 == from;
            assert(before[i].0 == from);
        }
    }
}

/// Merging the items that list the graph `right` into `left`, in whatever
/// order they are listed, merges the two graphs vertex by vertex.
pub proof fn lemma_graph_extended_is_merged(
    left: Graph,
    right: Graph,
    items: Seq<(VertexID, Map<VertexID, VertexWeight>)>,
)
    requires
        lists(items, right),
    ensures
        graph_extended(left, items) == graphs_merged(left, right),
    decreases items.len(),
{
    if items.len() == 0 {
        assert(graphs_merged(left, right) =~= left);
    } else {
        let last = items.last();
        let before = items.drop_last();
        let rest = right.remove(last.0);
        lemma_lists_drop_last(items, right);
        lemma_graph_extended_is_merged(left, rest, before);
        assert(right.contains_key(items[items.len() - 1].0));
        assert(neighbours_merged(graphs_merged(left, rest), last.0, last.1) =~= graphs_merged(
            left,
            right,
        ));
    }
}

/// Merging graphs is commutative: which of the two receives the other makes
/// no difference to the graph that results.
pub proof fn lemma_graphs_merged_commutative(left: Graph, right: Graph)
    ensures
        graphs_merged(left, right) == graphs_merged(right, left),
{
    assert forall|v: VertexID| left.contains_key(v) && right.contains_key(v) implies merged(
        left[v],
        right[v],
    ) == merged(right[v], left[v]) by {
        lemma_merged_commutative(left[v], right[v]);
    }
    assert(graphs_merged(left, right) =~= graphs_merged(right, left));
}

/// Merging graphs is associative: three graphs merged one after the other
/// give the same graph however the merges are grouped.
pub proof fn lemma_graphs_merged_associative(first: Graph, second: Graph, third: Graph)
    ensures
        graphs_merged(graphs_merged(first, second), third) == graphs_merged(
            first,
            graphs_merged(second, third),
        ),
{
    assert forall|v: VertexID|
        first.contains_key(v) && second.contains_key(v) && third.contains_key(v) implies merged(
        merged(first[v], second[v]),
        third[v],
    ) == merged(first[v], merged(second[v], third[v])) by {
        lemma_merged_associative(first[v], second[v], third[v]);
    }
    assert(graphs_merged(graphs_merged(first, second), third) =~= graphs_merged(
        first,
        graphs_merged(second, third),
    ));
}

/// A graph that is rebuilt from a list of its own entries, taken in whatever
/// order, is the graph that was listed.
pub proof fn lemma_rebuilt_from_list(
    graph: Graph,
    items: Seq<(VertexID, Map<VertexID, VertexWeight>)>,
)
    requires
        lists(items, graph),
    ensures
        rebuilt(items) == graph,
    decreases items.len(),
{
    if items.len() == 0 {
        assert(graph =~= Graph::empty());
    } else {
        let last = items.last();
        let before = items.drop_last();
        let rest = graph.remove(last.0);
        lemma_lists_drop_last(items, graph);
        lemma_rebuilt_from_list(rest, before);
        assert(graph.contains_key(items[items.len() - 1].0));
        assert(rest.insert(last.0, last.1) =~= graph);
    }
}

} // verus!
