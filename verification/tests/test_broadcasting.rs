use pyxirr::broadcasting::{broadcast_shapes, record_dimension, BroadcastingError};

#[test]
fn test_broadcast_shapes() {
    assert_eq!(broadcast_shapes(&[&[3_usize, 2], &[2, 1]]), None);
    assert_eq!(broadcast_shapes(&[&[1_usize, 2], &[3, 1], &[3, 2]]), Some(vec![3_usize, 2]));
    assert_eq!(
        broadcast_shapes(&[&[6_usize, 7], &[5, 6, 1], &[7], &[5, 1, 7]]),
        Some(vec![5, 6, 7])
    );
}

#[test]
fn test_broadcast_no_shapes() {
    assert_eq!(broadcast_shapes(&[]), None);
    assert_eq!(broadcast_shapes(&[&[]]), Some(vec![]));
}

#[test]
fn test_broadcast_zero_length_dimension() {
    assert_eq!(broadcast_shapes(&[&[0_usize], &[1]]), Some(vec![0]));
    assert_eq!(broadcast_shapes(&[&[0_usize], &[2]]), None);
}

#[test]
fn test_broadcast_order_and_repetition() {
    let a: &[usize] = &[5, 1, 7];
    let b: &[usize] = &[6, 1];
    let c: &[usize] = &[7];
    let expected = Some(vec![5, 6, 7]);
    assert_eq!(broadcast_shapes(&[a, b, c]), expected);
    assert_eq!(broadcast_shapes(&[c, a, b]), expected);
    assert_eq!(broadcast_shapes(&[b, b, c, a, a]), expected);
}

#[test]
fn test_broadcast_single_and_absorbing() {
    assert_eq!(broadcast_shapes(&[&[4_usize, 1, 3]]), Some(vec![4, 1, 3]));
    let result = broadcast_shapes(&[&[2_usize, 1], &[1, 3]]).unwrap();
    assert_eq!(broadcast_shapes(&[&[2_usize, 1], &[1, 3], result.as_slice()]), Some(result.clone()));
}

#[test]
fn test_broadcasting_error_message() {
    let err = BroadcastingError::new(&[&[3_usize, 2], &[2, 1]]);
    assert_eq!(err.message(), "[[3, 2], [2, 1]]");
}

#[test]
fn test_record_dimension() {
    let mut shape: Vec<usize> = Vec::new();
    record_dimension(&mut shape, 1, 3);
    assert_eq!(shape, vec![0, 3]);
    record_dimension(&mut shape, 1, 2);
    assert_eq!(shape, vec![0, 3]);
    record_dimension(&mut shape, 0, 5);
    assert_eq!(shape, vec![5, 3]);
    record_dimension(&mut shape, 1, 4);
    assert_eq!(shape, vec![5, 4]);
    record_dimension(&mut shape, 3, 2);
    assert_eq!(shape, vec![5, 4, 0, 2]);
}

#[test]
fn test_record_dimension_of_nested_rows() {
    // [[1, 2, 3], [4, 5, 6]]: each row is recorded one level down as it is
    // read, then the outer level
    let mut shape: Vec<usize> = Vec::new();
    for _ in 0..2 {
        record_dimension(&mut shape, 1, 3);
    }
    record_dimension(&mut shape, 0, 2);
    assert_eq!(shape, vec![2, 3]);

    // [[[1], [2]], [[3], [4]], [[5], [6]]]: three blocks of two rows of one
    let mut shape: Vec<usize> = Vec::new();
    for _ in 0..3 {
        for _ in 0..2 {
            record_dimension(&mut shape, 2, 1);
        }
        record_dimension(&mut shape, 1, 2);
    }
    record_dimension(&mut shape, 0, 3);
    assert_eq!(shape, vec![3, 2, 1]);
}
