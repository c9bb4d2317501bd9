use local_swarm::order::stable_order;

#[test]
fn places_are_listed_by_ascending_key() {
    assert_eq!(stable_order(&vec![30, 10, 20]), vec![1, 2, 0]);
    assert_eq!(stable_order(&vec![1, 2, 3, 4]), vec![0, 1, 2, 3]);
    assert_eq!(stable_order(&vec![4, 3, 2, 1]), vec![3, 2, 1, 0]);
    assert_eq!(stable_order(&vec![-5, i32::MAX, i32::MIN, 0]), vec![2, 0, 3, 1]);
}

#[test]
fn places_with_equal_keys_keep_their_order() {
    assert_eq!(stable_order(&vec![2, 1, 2, 1, 2]), vec![1, 3, 0, 2, 4]);
    assert_eq!(stable_order(&vec![7, 7, 7]), vec![0, 1, 2]);
}

#[test]
fn short_lists_are_in_order_already() {
    assert_eq!(stable_order(&Vec::new()), Vec::<usize>::new());
    assert_eq!(stable_order(&vec![42]), vec![0]);
}

#[test]
fn the_order_agrees_with_a_stable_sort() {
    let keys: Vec<i32> = vec![5, 3, 9, 3, 1, 5, 5, 0, -2, 9, 3, 7, 1, 1, 8];
    let mut expected: Vec<usize> = (0..keys.len()).collect();
    expected.sort_by_key(|i| keys[*i]);
    assert_eq!(stable_order(&keys), expected);
}

#[test]
fn the_keys_in_order_do_not_depend_on_the_arrangement() {
    let arrangements: [[i32; 5]; 4] =
        [[1, 2, 3, 4, 5], [5, 4, 3, 2, 1], [3, 1, 4, 5, 2], [2, 5, 1, 3, 4]];
    for keys in arrangements {
        let keys = keys.to_vec();
        let listed: Vec<i32> = stable_order(&keys).iter().map(|i| keys[*i]).collect();
        assert_eq!(listed, vec![1, 2, 3, 4, 5]);
    }
}
