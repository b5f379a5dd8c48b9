//! A directed, weighted multigraph held in memory as an adjacency list: each
//! source vertex maps to the weighted set of its neighbours, and inserting an
//! edge that is already there adds to its weight.
//!
//! Two structures of the same kind are merged by adding the weights of the
//! edges that both have. All sums of weights saturate at the largest weight.

pub mod hashbrown_utils;
pub mod topology;
