use weighted_adjacency::topology::{VertexID, VertexWeight, WeightedVertices};

fn sorted(mut pairs: Vec<(VertexID, VertexWeight)>) -> Vec<(VertexID, VertexWeight)> {
    pairs.sort();
    pairs
}

fn built(pairs: &[(VertexID, VertexWeight)]) -> WeightedVertices {
    let mut vertices = WeightedVertices::new();
    for &(id, weight) in pairs {
        assert_eq!(vertices.set_vertex_weight(id, weight), None);
    }
    vertices
}

#[test]
fn new_has_no_neighbours() {
    let vertices = WeightedVertices::new();
    assert_eq!(vertices.get_vertex_weigth(0), None);
    assert_eq!(vertices.get_vertex_weigth(17), None);
    assert!(vertices.iter().is_empty());
    assert!(vertices.into_iter().is_empty());
}

#[test]
fn default_has_no_neighbours() {
    let vertices = WeightedVertices::default();
    assert_eq!(vertices.get_vertex_weigth(1), None);
    assert!(vertices.iter().is_empty());
}

#[test]
fn set_returns_nothing_on_first_insertion() {
    let mut vertices = WeightedVertices::new();
    assert_eq!(vertices.set_vertex_weight(5, 11), None);
    assert_eq!(vertices.get_vertex_weigth(5), Some(&11));
}

#[test]
fn set_returns_the_exact_prior_weight() {
    let mut vertices = WeightedVertices::new();
    assert_eq!(vertices.set_vertex_weight(5, 11), None);
    assert_eq!(vertices.set_vertex_weight(5, 3), Some(11));
    assert_eq!(vertices.set_vertex_weight(5, 8), Some(3));
    assert_eq!(vertices.get_vertex_weigth(5), Some(&8));
    assert_eq!(sorted(vertices.iter()), vec![(5, 8)]);
}

#[test]
fn set_overwrites_and_does_not_accumulate() {
    let mut vertices = WeightedVertices::new();
    vertices.set_vertex_weight(1, 100);
    vertices.set_vertex_weight(1, 1);
    assert_eq!(vertices.get_vertex_weigth(1), Some(&1));
}

#[test]
fn set_leaves_other_neighbours_alone() {
    let mut vertices = built(&[(1, 10), (2, 20), (3, 30)]);
    assert_eq!(vertices.set_vertex_weight(2, 21), Some(20));
    assert_eq!(sorted(vertices.into_iter()), vec![(1, 10), (2, 21), (3, 30)]);
}

#[test]
fn zero_weight_is_not_absence() {
    let mut vertices = WeightedVertices::new();
    assert_eq!(vertices.get_vertex_weigth(9), None);
    assert_eq!(vertices.set_vertex_weight(9, 0), None);
    assert_eq!(vertices.get_vertex_weigth(9), Some(&0));
    assert_eq!(vertices.set_vertex_weight(9, 4), Some(0));
    assert_eq!(vertices.iter(), vec![(9, 4)]);
}

#[test]
fn increment_creates_an_absent_neighbour() {
    let mut vertices = WeightedVertices::new();
    vertices.increment_vertex_weight(4, 6);
    assert_eq!(vertices.get_vertex_weigth(4), Some(&6));
    assert_eq!(vertices.iter(), vec![(4, 6)]);
}

#[test]
fn increment_creates_with_zero_delta() {
    let mut vertices = WeightedVertices::new();
    vertices.increment_vertex_weight(4, 0);
    assert_eq!(vertices.get_vertex_weigth(4), Some(&0));
}

#[test]
fn increment_adds_to_a_present_neighbour() {
    let mut vertices = WeightedVertices::new();
    vertices.set_vertex_weight(4, 6);
    vertices.increment_vertex_weight(4, 7);
    vertices.increment_vertex_weight(4, 1);
    assert_eq!(vertices.get_vertex_weigth(4), Some(&14));
    assert_eq!(vertices.get_vertex_weigth(7), None);
}

#[test]
fn increment_saturates_instead_of_wrapping() {
    let mut vertices = WeightedVertices::new();
    vertices.set_vertex_weight(1, u64::MAX - 1);
    vertices.increment_vertex_weight(1, 1);
    assert_eq!(vertices.get_vertex_weigth(1), Some(&u64::MAX));
    vertices.increment_vertex_weight(1, 1);
    assert_eq!(vertices.get_vertex_weigth(1), Some(&u64::MAX));
    vertices.increment_vertex_weight(1, u64::MAX);
    assert_eq!(vertices.get_vertex_weigth(1), Some(&u64::MAX));
}

#[test]
fn increment_by_the_largest_weight_of_a_small_one() {
    let mut vertices = WeightedVertices::new();
    vertices.set_vertex_weight(1, 5);
    vertices.increment_vertex_weight(1, u64::MAX - 5);
    assert_eq!(vertices.get_vertex_weigth(1), Some(&u64::MAX));
    vertices.set_vertex_weight(2, 5);
    vertices.increment_vertex_weight(2, u64::MAX - 6);
    assert_eq!(vertices.get_vertex_weigth(2), Some(&(u64::MAX - 1)));
}

#[test]
fn get_mut_is_nothing_for_an_absent_neighbour() {
    let mut vertices = built(&[(1, 10)]);
    assert!(vertices.get_vertex_weigth_mut(2).is_none());
    assert_eq!(vertices.iter(), vec![(1, 10)]);
}

#[test]
fn get_mut_changes_the_weight_in_place() {
    let mut vertices = built(&[(1, 10), (2, 20)]);
    match vertices.get_vertex_weigth_mut(2) {
        Some(weight) => {
            assert_eq!(*weight, 20);
            *weight = 99;
        }
        None => panic!("neighbour 2 was set"),
    }
    assert_eq!(vertices.get_vertex_weigth(2), Some(&99));
    assert_eq!(vertices.get_vertex_weigth(1), Some(&10));
    assert_eq!(sorted(vertices.into_iter()), vec![(1, 10), (2, 99)]);
}

#[test]
fn lookups_survive_the_growth_of_the_table() {
    let mut vertices = WeightedVertices::new();
    for id in 0..5000u64 {
        assert_eq!(vertices.set_vertex_weight(id * 7919, id + 1), None);
    }
    for id in 0..5000u64 {
        assert_eq!(vertices.get_vertex_weigth(id * 7919), Some(&(id + 1)));
    }
    assert_eq!(vertices.get_vertex_weigth(1), None);
    assert_eq!(vertices.get_vertex_weigth(5000 * 7919), None);
    for id in 0..5000u64 {
        assert_eq!(vertices.set_vertex_weight(id * 7919, 0), Some(id + 1));
    }
    assert_eq!(vertices.iter().len(), 5000);
}

#[test]
fn keys_that_differ_in_high_bits_only_are_kept_apart() {
    let mut vertices = WeightedVertices::new();
    for shift in 0..64u32 {
        vertices.increment_vertex_weight(1u64 << shift, shift as u64);
    }
    vertices.increment_vertex_weight(0, 64);
    vertices.increment_vertex_weight(u64::MAX, 65);
    for shift in 0..64u32 {
        assert_eq!(vertices.get_vertex_weigth(1u64 << shift), Some(&(shift as u64)));
    }
    assert_eq!(vertices.get_vertex_weigth(0), Some(&64));
    assert_eq!(vertices.get_vertex_weigth(u64::MAX), Some(&65));
    assert_eq!(vertices.get_vertex_weigth(3), None);
    assert_eq!(vertices.iter().len(), 66);
}

#[test]
fn iter_lists_every_neighbour_once() {
    let vertices = built(&[(3, 30), (1, 10), (2, 20)]);
    assert_eq!(sorted(vertices.iter()), vec![(1, 10), (2, 20), (3, 30)]);
    assert_eq!(sorted(vertices.iter()), vec![(1, 10), (2, 20), (3, 30)]);
}

#[test]
fn into_iter_hands_out_every_neighbour_once() {
    let vertices = built(&[(3, 30), (1, 10), (2, 20)]);
    assert_eq!(sorted(vertices.into_iter()), vec![(1, 10), (2, 20), (3, 30)]);
}

#[test]
fn extend_adds_weights_of_the_same_neighbour() {
    let mut vertices = built(&[(1, 10), (2, 20)]);
    vertices.extend(vec![(2, 5), (3, 7)]);
    assert_eq!(sorted(vertices.into_iter()), vec![(1, 10), (2, 25), (3, 7)]);
}

#[test]
fn extend_with_nothing_changes_nothing() {
    let mut vertices = built(&[(1, 10)]);
    vertices.extend(Vec::new());
    assert_eq!(vertices.into_iter(), vec![(1, 10)]);
}

#[test]
fn extend_accumulates_repeated_pairs() {
    let mut vertices = WeightedVertices::new();
    vertices.extend(vec![(1, 1), (2, 2), (1, 3), (1, 5), (2, 0)]);
    assert_eq!(sorted(vertices.into_iter()), vec![(1, 9), (2, 2)]);
}

#[test]
fn extend_saturates() {
    let mut vertices = built(&[(1, u64::MAX - 2)]);
    vertices.extend(vec![(1, 1), (1, 1), (1, 1), (1, 1)]);
    assert_eq!(vertices.get_vertex_weigth(1), Some(&u64::MAX));
}

#[test]
fn merge_is_additive() {
    let mut x = built(&[(1, 4), (2, 6)]);
    let y = built(&[(2, 10), (3, 1)]);
    x.extend(y.into_iter());
    assert_eq!(x.get_vertex_weigth(1), Some(&4));
    assert_eq!(x.get_vertex_weigth(2), Some(&16));
    assert_eq!(x.get_vertex_weigth(3), Some(&1));
    assert_eq!(x.iter().len(), 3);
}

#[test]
fn merge_keeps_zero_weights() {
    let mut x = built(&[(1, 0)]);
    let y = built(&[(1, 0), (2, 0)]);
    x.extend(y.into_iter());
    assert_eq!(sorted(x.into_iter()), vec![(1, 0), (2, 0)]);
}

#[test]
fn merge_is_commutative() {
    let mut x_receives = built(&[(1, 4), (2, 6), (9, 0)]);
    x_receives.extend(built(&[(2, 10), (3, 1)]).into_iter());
    let mut y_receives = built(&[(2, 10), (3, 1)]);
    y_receives.extend(built(&[(1, 4), (2, 6), (9, 0)]).into_iter());
    assert_eq!(sorted(x_receives.into_iter()), sorted(y_receives.into_iter()));
}

#[test]
fn merge_is_associative() {
    let x = [(1, 1), (2, 2)];
    let y = [(2, 20), (3, 30)];
    let z = [(1, 100), (3, 300), (4, u64::MAX)];
    let mut left = built(&x);
    left.extend(built(&y).into_iter());
    left.extend(built(&z).into_iter());
    let mut right_part = built(&y);
    right_part.extend(built(&z).into_iter());
    let mut right = built(&x);
    right.extend(right_part.into_iter());
    let expected = vec![(1, 101), (2, 22), (3, 330), (4, u64::MAX)];
    assert_eq!(sorted(left.into_iter()), expected);
    assert_eq!(sorted(right.into_iter()), expected);
}

#[test]
fn merge_is_associative_at_saturation() {
    let mut left = built(&[(1, u64::MAX - 1)]);
    left.extend(vec![(1, 1)]);
    left.extend(vec![(1, 5)]);
    let mut right = built(&[(1, u64::MAX - 1)]);
    right.extend(vec![(1, 6)]);
    assert_eq!(left.into_iter(), vec![(1, u64::MAX)]);
    assert_eq!(right.into_iter(), vec![(1, u64::MAX)]);
}
