//! The mathematics of edge weights: how two weights add, what incrementing
//! and merging do to a map of weights, and the laws of merging.

use vstd::prelude::*;
use super::listing::{lemma_lists_drop_last, lists};
use super::{VertexID, VertexWeight};

verus! {

/// The sum of two weights, which stays at the largest weight once it is reached.
pub open spec fn weight_sum(a: VertexWeight, b: VertexWeight) -> VertexWeight {
    if a + b > VertexWeight::MAX {
        VertexWeight::MAX
    } else {
        (a + b) as VertexWeight
    }
}

/// The weights after `by` was added to the weight of `vertex_id`, an absent
/// neighbour counting as one of weight zero.
pub open spec fn incremented(
    weights: Map<VertexID, VertexWeight>,
    vertex_id: VertexID,
    by: VertexWeight,
) -> Map<VertexID, VertexWeight> {
    if weights.contains_key(vertex_id) {
        weights.insert(vertex_id, weight_sum(weights[vertex_id], by))
    } else {
        weights.insert(vertex_id, by)
    }
}

/// The weights after each pair of `pairs`, from the first to the last, was
/// added as [`incremented`] adds one.
pub open spec fn extended(
    weights: Map<VertexID, VertexWeight>,
    pairs: Seq<(VertexID, VertexWeight)>,
) -> Map<VertexID, VertexWeight>
    decreases pairs.len(),
{
    if pairs.len() == 0 {
        weights
    } else {
        incremented(extended(weights, pairs.drop_last()), pairs.last().0, pairs.last().1)
    }
}

/// The merge of two weight maps: a neighbour of both has the sum of its two
/// weights, a neighbour of one keeps the weight it has there.
pub open spec fn merged(
    left: Map<VertexID, VertexWeight>,
    right: Map<VertexID, VertexWeight>,
) -> Map<VertexID, VertexWeight> {
    Map::new(
        |k: VertexID| left.contains_key(k) || right.contains_key(k),
        |k: VertexID|
            if left.contains_key(k) && right.contains_key(k) {
                weight_sum(left[k], right[k])
            } else if left.contains_key(k) {
                left[k]
            } else {
                right[k]
            },
    )
}

/// Adding weights saturates, and saturating sums may be regrouped and swapped.
pub proof fn lemma_weight_sum_laws(a: VertexWeight, b: VertexWeight, c: VertexWeight)
    ensures
        weight_sum(a, b) == weight_sum(b, a),
        weight_sum(weight_sum(a, b), c) == weight_sum(a, weight_sum(b, c)),
        weight_sum(a, 0) == a,
{
}

/// Merging adds: the pairs that list `right`, merged into `left` in whatever
/// order they are listed, give every neighbour of both the sum of its two
/// weights, and a neighbour of one the weight it has there.
pub proof fn lemma_extended_is_merged(
    left: Map<VertexID, VertexWeight>,
    right: Map<VertexID, VertexWeight>,
    pairs: Seq<(VertexID, VertexWeight)>,
)
    requires
        lists(pairs, right),
    ensures
        extended(left, pairs) == merged(left, right),
    decreases pairs.len(),
{
    if pairs.len() == 0 {
        assert(merged(left, right) =~= left);
    } else {
        let last = pairs.last();
        let before = pairs.drop_last();
        let rest = right.remove(last.0);
        lemma_lists_drop_last(pairs, right);
        lemma_extended_is_merged(left, rest, before);
        assert(right.contains_key(pairs[pairs.len() - 1].0));
        assert(incremented(merged(left, rest), last.0, last.1) =~= merged(left, right));
    }
}

/// Merging is commutative: which of the two structures receives the other
/// makes no difference to the weights that result.
pub proof fn lemma_merged_commutative(
    left: Map<VertexID, VertexWeight>,
    right: Map<VertexID, VertexWeight>,
)
    ensures
        merged(left, right) == merged(right, left),
{
    assert(merged(left, right) =~= merged(right, left));
}

/// Merging is associative: three structures merged one after the other give
/// the same weights however the merges are grouped.
pub proof fn lemma_merged_associative(
    first: Map<VertexID, VertexWeight>,
    second: Map<VertexID, VertexWeight>,
    third: Map<VertexID, VertexWeight>,
)
    ensures
        merged(merged(first, second), third) == merged(first, merged(second, third)),
{
    assert(merged(merged(first, second), third) =~= merged(first, merged(second, third)));
}

} // verus!
