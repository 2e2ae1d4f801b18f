use backbone::error::ShapeError;
use backbone::pairing::pair_atoms;

#[test]
fn chains_of_unequal_length_are_refused() {
    assert_eq!(pair_atoms(&vec![1, 2, 3], &vec![1, 2]), Err(ShapeError::LengthMismatch));
    assert_eq!(pair_atoms(&vec![1], &vec![1, 2]), Err(ShapeError::LengthMismatch));
    assert_eq!(pair_atoms(&Vec::<i32>::new(), &vec![1]), Err(ShapeError::LengthMismatch));
}

#[test]
fn chains_of_equal_length_are_paired_in_order() {
    let pairs = pair_atoms(&vec![1, 2, 3], &vec![10, 20, 30]);
    assert_eq!(pairs, Ok(vec![(1, 10), (2, 20), (3, 30)]));
}

#[test]
fn empty_chains_pair_to_nothing() {
    assert_eq!(pair_atoms(&Vec::<i32>::new(), &Vec::<i32>::new()), Ok(vec![]));
}

#[test]
fn pairing_the_other_way_round_swaps_each_pair() {
    let a = vec![(0.0, 1.0, 2.0), (3.0, 4.0, 5.0)];
    let b = vec![(9.0, 8.0, 7.0), (6.0, 5.0, 4.0)];
    let forth = pair_atoms(&a, &b).unwrap();
    let back = pair_atoms(&b, &a).unwrap();
    assert_eq!(forth.len(), back.len());
    for i in 0..forth.len() {
        assert_eq!(forth[i].0, back[i].1);
        assert_eq!(forth[i].1, back[i].0);
    }
}

#[test]
fn a_chain_paired_with_itself_has_equal_halves() {
    let a = vec![(0.0, 1.0, 2.0), (3.0, 4.0, 5.0), (6.0, 7.0, 8.0)];
    let pairs = pair_atoms(&a, &a).unwrap();
    assert_eq!(pairs.len(), 3);
    for (left, right) in pairs {
        assert_eq!(left, right);
    }
}
