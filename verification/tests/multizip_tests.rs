//! Lockstep-walking tests.

use pathtracer::multizip::{IntoMultizip, Multizip};

fn collect_rows(mut z: Multizip<i32>) -> Vec<Vec<i32>> {
    let mut rows = Vec::new();
    while let Some(row) = z.next() {
        if row.is_empty() {
            break;
        }
        rows.push(row);
    }
    rows
}

#[test]
fn test_multizip() {
    let first_vec = vec![1, 2, 3];
    let second_vec = vec![4, 5, 6];
    let third_vec = vec![7, 8, 9];

    let result_vec = collect_rows(vec![first_vec, second_vec, third_vec].multizip());

    let correct_vec = vec![vec![1, 4, 7], vec![2, 5, 8], vec![3, 6, 9]];
    assert_eq!(result_vec, correct_vec);
}

#[test]
fn test_multizip2() {
    let first_vec = vec![1, 2];
    let second_vec = vec![4, 5, 6];
    let third_vec = vec![7, 8, 9, 10];

    let result_vec = collect_rows(vec![first_vec, second_vec, third_vec].multizip());

    let correct_vec = vec![vec![1, 4, 7], vec![2, 5, 8]];
    assert_eq!(result_vec, correct_vec);
}

#[test]
fn test_multizip3() {
    let first_vec = vec![1, 2, 3];
    let second_vec = vec![4, 5, 6];
    let third_vec = vec![];

    let result_vec = collect_rows(vec![first_vec, second_vec, third_vec].multizip());

    let correct_vec: Vec<Vec<i32>> = vec![];
    assert_eq!(result_vec, correct_vec);
}
