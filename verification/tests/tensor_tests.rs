use a16::tensor::shape::{
    broadcast_plan, broadcast_shape, checked_size, compute_strides, matmul_plan, size, transpose_dims, Broadcast,
};

#[test]
fn sizes_and_strides() {
    assert_eq!(size(&[2, 3, 4]), 24);
    assert_eq!(size(&[]), 1);
    assert_eq!(size(&[5, 0, 7]), 0);
    assert_eq!(compute_strides(&[2, 3, 4]), Some(vec![12, 4, 1]));
    assert_eq!(compute_strides(&[7]), Some(vec![1]));
    assert_eq!(compute_strides(&[]), Some(Vec::<usize>::new()));
    assert_eq!(compute_strides(&[2, usize::MAX, 2]), None);
    assert_eq!(checked_size(&[2, 3, 4]), Some(24));
    assert_eq!(checked_size(&[usize::MAX, 2, 0]), None);
    assert_eq!(checked_size(&[0, usize::MAX, 2]), Some(0));
}

#[test]
fn broadcast_rules() {
    assert_eq!(broadcast_plan(6, 6, &[2, 3], &[3, 2]), Some(Broadcast::Elementwise));
    assert_eq!(broadcast_plan(6, 1, &[2, 3], &[]), Some(Broadcast::ScalarRight));
    assert_eq!(broadcast_plan(1, 6, &[1], &[2, 3]), Some(Broadcast::ScalarLeft));
    assert_eq!(broadcast_plan(6, 3, &[2, 3], &[3]), Some(Broadcast::RowsRight(3)));
    assert_eq!(broadcast_plan(3, 6, &[3], &[2, 3]), Some(Broadcast::RowsLeft(3)));
    assert_eq!(broadcast_plan(6, 2, &[2, 3], &[2]), None);
    assert_eq!(broadcast_shape(&[2, 3], &[3]), vec![2, 3]);
    assert_eq!(broadcast_shape(&[3], &[2, 3]), vec![2, 3]);
}

#[test]
fn matmul_dimensions() {
    let p = matmul_plan(&[2, 3], &[3, 4]).unwrap();
    assert_eq!((p.m, p.k, p.n), (2, 3, 4));
    assert_eq!(p.shape, vec![2, 4]);
    let p = matmul_plan(&[3], &[3]).unwrap();
    assert_eq!((p.m, p.k, p.n), (1, 3, 1));
    assert!(p.shape.is_empty());
    let p = matmul_plan(&[3], &[3, 5]).unwrap();
    assert_eq!(p.shape, vec![5]);
    let p = matmul_plan(&[4, 3], &[3]).unwrap();
    assert_eq!(p.shape, vec![4]);
    assert!(matmul_plan(&[2, 3], &[4, 2]).is_none());
    assert!(matmul_plan(&[], &[3]).is_none());
    assert_eq!(transpose_dims(&[2, 3]), Some((2, 3)));
    assert_eq!(transpose_dims(&[5]), None);
}
