//! The weighted neighbours of one vertex.

use vstd::prelude::*;
use super::filing::{entries, lemma_entries_absent, lemma_entries_empty, lemma_entries_insert,
    lemma_entries_present, lemma_entries_replace, lemma_filed_lists, well_filed};
use super::listing::{lemma_lists_len, lists};
use super::weights::{extended, incremented};
use super::weight_table::{weight_filings, weights_find, weights_find_mut, weights_insert_unique,
    weights_into_iter, weights_iter, weights_new, WeightTable};
use super::{VertexID, VertexWeight};
use crate::hashbrown_utils::vertex_hash;

verus! {

/// For one source vertex, the weight of the edge to each of its neighbours.
///
/// A neighbour that is absent and a neighbour with weight zero are different
/// things: nothing here removes an entry or treats zero as absence.
pub struct WeightedVertices {
    vertices: WeightTable,
}

impl View for WeightedVertices {
    type V = Map<VertexID, VertexWeight>;

    /// The map from each neighbour to the weight of the edge to it.
    closed spec fn view(&self) -> Map<VertexID, VertexWeight> {
        entries(weight_filings(self.vertices))
    }
}

impl WeightedVertices {
    /// Each neighbour is stored once, where a lookup by its identifier finds it.
    pub closed spec fn wf(&self) -> bool {
        well_filed(weight_filings(self.vertices))
    }

    /// Creates a structure without neighbours.
    pub fn new() -> (empty: Self)
        ensures
            empty.wf(),
            empty@ == Map::<VertexID, VertexWeight>::empty(),
    {
        proof {
            lemma_entries_empty::<u64>();
        }
        WeightedVertices { vertices: weights_new() }
    }

    /// Looks up the weight of the edge to `vertex_id`.
    pub fn get_vertex_weigth(&self, vertex_id: VertexID) -> (weight: Option<&VertexWeight>)
        requires
            self.wf(),
        ensures
            match weight {
                Some(w) => self@.contains_key(vertex_id) && *w == self@[vertex_id],
                None => !self@.contains_key(vertex_id),
            },
    {
        let found = weights_find(&self.vertices, vertex_hash(vertex_id), vertex_id);
        proof {
            let filings = weight_filings(self.vertices);
            match found {
                Some(w) => {
                    let h = choose|h: u64| #[trigger] filings.contains((h, (vertex_id, *w)));
                    lemma_entries_present(filings, h, vertex_id, *w);
                },
                None => {
                    lemma_entries_absent(filings, vertex_id);
                },
            }
        }
        found
    }

    /// Looks up the weight of the edge to `vertex_id`, for the caller to change in place.
    pub fn get_vertex_weigth_mut(&mut self, vertex_id: VertexID) -> (weight: Option<
        &mut VertexWeight,
    >)
        requires
            old(self).wf(),
        ensures
            final(self).wf(),
            match weight {
                Some(w) => old(self)@.contains_key(vertex_id) && *w == old(self)@[vertex_id]
                    && final(self)@ == old(self)@.insert(vertex_id, *final(w)),
                None => !old(self)@.contains_key(vertex_id) && final(self)@ == old(self)@,
            },
    {
        let ghost filings = weight_filings(self.vertices);
        match weights_find_mut(&mut self.vertices, vertex_hash(vertex_id), vertex_id) {
            Some(w) => {
                proof {
                    let h = choose|h: u64| #[trigger] filings.contains((h, (vertex_id, *w)));
                    lemma_entries_present(filings, h, vertex_id, *w);
                    lemma_entries_replace(filings, h, vertex_id, *w, *final(w));
                }
                Some(w)
            },
            None => {
                proof {
                    lemma_entries_absent(filings, vertex_id);
                }
                None
            },
        }
    }

    /// Sets the weight of the edge to `vertex_id`, whatever it was, and hands
    /// back the weight that was there before, if there was one.
    pub fn set_vertex_weight(
        &mut self,
        vertex_id: VertexID,
        vertex_weight: VertexWeight,
    ) -> (previous: Option<VertexWeight>)
        requires
            old(self).wf(),
        ensures
            final(self).wf(),
            final(self)@ == old(self)@.insert(vertex_id, vertex_weight),
            previous == if old(self)@.contains_key(vertex_id) {
                Some(old(self)@[vertex_id])
            } else {
                None::<VertexWeight>
            },
    {
        let hash = vertex_hash(vertex_id);
        let ghost filings = weight_filings(self.vertices);
        match weights_find_mut(&mut self.vertices, hash, vertex_id) {
            Some(weight) => {
                proof {
                    let h = choose|h: u64| #[trigger] filings.contains((h, (vertex_id, *weight)));
                    lemma_entries_present(filings, h, vertex_id, *weight);
                    lemma_entries_replace(filings, h, vertex_id, *weight, vertex_weight);
                }
                let mut displaced = vertex_weight;
                std::mem::swap(weight, &mut displaced);
                Some(displaced)
            },
            None => {
                proof {
                    lemma_entries_absent(filings, vertex_id);
                    lemma_entries_insert(filings, vertex_id, vertex_weight);
                }
                weights_insert_unique(&mut self.vertices, hash, (vertex_id, vertex_weight));
                None
            },
        }
    }

    /// Adds `by` to the weight of the edge to `vertex_id`; a neighbour that
    /// was absent gets the weight `by`. The sum saturates: it stays at
    /// `VertexWeight::MAX` rather than wrapping around.
    pub fn increment_vertex_weight(&mut self, vertex_id: VertexID, by: VertexWeight)
        requires
            old(self).wf(),
        ensures
            final(self).wf(),
            final(self)@ == incremented(old(self)@, vertex_id, by),
    {
        if let Some(vertex_weight) = self.get_vertex_weigth_mut(vertex_id) {
            *vertex_weight = vertex_weight.saturating_add(by);
        } else {
            self.set_vertex_weight(vertex_id, by);
        }
    }

    /// The neighbours with their weights, each neighbour once, in no particular order.
    pub fn iter(&self) -> (pairs: Vec<(VertexID, VertexWeight)>)
        requires
            self.wf(),
        ensures
            lists(pairs@, self@),
            pairs@.len() == self@.len(),
    {
        let pairs = weights_iter(&self.vertices);
        proof {
            let filings = weight_filings(self.vertices);
            let filed = choose|filed: Seq<(u64, (u64, u64))>| #[trigger]
                filed.to_multiset() == filings && filed.len() == pairs@.len() && forall|i: int|
                    0 <= i < filed.len() ==> pairs@[i] == (#[trigger] filed[i]).1;
            lemma_filed_lists(filings, filed, pairs@);
            lemma_lists_len(pairs@, self@);
        }
        pairs
    }

    /// Takes the structure apart into its neighbours with their weights, each
    /// neighbour once, in no particular order.
    pub fn into_iter(self) -> (pairs: Vec<(VertexID, VertexWeight)>)
        requires
            self.wf(),
        ensures
            lists(pairs@, self@),
            pairs@.len() == self@.len(),
    {
        let ghost filings = weight_filings(self.vertices);
        let pairs = weights_into_iter(self.vertices);
        proof {
            let filed = choose|filed: Seq<(u64, (u64, u64))>| #[trigger]
                filed.to_multiset() == filings && filed.len() == pairs@.len() && forall|i: int|
                    0 <= i < filed.len() ==> pairs@[i] == (#[trigger] filed[i]).1;
            lemma_filed_lists(filings, filed, pairs@);
            lemma_lists_len(pairs@, self@);
        }
        pairs
    }

    /// Merges `pairs` into the structure: each pair, in turn, is added as
    /// [`increment_vertex_weight`](Self::increment_vertex_weight) adds it, so
    /// weights of the same neighbour add up and nothing is overwritten.
    pub fn extend(&mut self, pairs: Vec<(VertexID, VertexWeight)>)
        requires
            old(self).wf(),
        ensures
            final(self).wf(),
            final(self)@ == extended(old(self)@, pairs@),
    {
        let mut done: usize = 0;
        while done < pairs.len()
            invariant
                done <= pairs.len(),
                self.wf(),
                self@ == extended(old(self)@, pairs@.take(done as int)),
            decreases pairs.len() - done,
        {
            let (vertex_id, vertex_weight) = pairs[done];
            self.increment_vertex_weight(vertex_id, vertex_weight);
            proof {
                let next = pairs@.take(done + 1);
                assert(next.drop_last() == pairs@.take(done as int));
                assert(next.last() == pairs@[done as int]);
            }
            done += 1;
        }
        proof {
            assert(pairs@.take(pairs@.len() as int) == pairs@);
        }
    }
}

impl Default for WeightedVertices {
    /// The structure without neighbours.
    fn default() -> (empty: Self)
        ensures
            empty.wf(),
            empty@ == Map::<VertexID, VertexWeight>::empty(),
    {
        WeightedVertices::new()
    }
}

} // verus!
