//! The graph structures: [`WeightedVertices`] for the neighbours of one vertex
//! and [`AdjacencyList`] for the whole graph, with the mathematics that their
//! contracts are stated in.

use vstd::prelude::*;

pub mod adjacency_list;
pub mod graph;
pub mod listing;
pub mod weighted_vertices;
pub mod weights;

mod filing;
mod neighbour_table;
mod weight_table;

pub use adjacency_list::AdjacencyList;
pub use weighted_vertices::WeightedVertices;

verus! {

/// Identifies a vertex of the graph.
pub type VertexID = u64;

/// Weight of an edge: how often it was inserted, or what was accumulated for it.
pub type VertexWeight = u64;

} // verus!
