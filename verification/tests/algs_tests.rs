//! Selection algorithm tests.

use pathtracer::algs::{bquickselect, partition, quickselect};

#[test]
fn partition_test() {
    let mut arr: Vec<u8> = vec![9, 1, 8, 2, 7, 3, 6, 4, 5];
    partition(&mut arr, 0, 8);
    assert_eq!(arr, vec![1, 2, 3, 4, 5, 8, 6, 9, 7]);
}

#[test]
fn random_partition_test() {
    let mut rng = rand::rng();
    let mut array: Vec<u8> = (0..10).map(|_| rand::RngExt::random_range(&mut rng, 0..10)).collect();
    let len = array.len() - 1;

    let mid = partition(&mut array, 0, len);
    assert!(array_check(&array, mid));
}

fn array_check(array: &[u8], mid: usize) -> bool {
    for i in 0..mid {
        if array[i] > array[mid] {
            return false;
        }
    }
    true
}

#[test]
fn quickselect_test() {
    let mut rng = rand::rng();
    let array: Vec<u8> = (0..9).map(|_| rand::RngExt::random_range(&mut rng, 0..9)).collect();
    let mut s = array.clone();
    s.sort();

    let middle = bquickselect(&mut array.clone(), 0, 8, 4);

    let mut sorted = array.clone();
    sorted.sort();

    assert_eq!(middle, sorted[4]);
}

#[test]
fn quickselect_exact_value() {
    let mut v: Vec<u8> = vec![5, 3, 9, 1, 7];
    let m = quickselect(&mut v, 2);
    assert_eq!(m, 5);
    let mut w: Vec<u8> = vec![42];
    assert_eq!(quickselect(&mut w, 0), 42);
}

#[test]
fn quickselect_equal_keys() {
    let mut v: Vec<u8> = vec![4, 4, 4, 4];
    assert_eq!(quickselect(&mut v, 1), 4);
}
