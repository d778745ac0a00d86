use ndarray_csv::DenseArray;

#[test]
fn from_shape_vec_checks_the_count() {
    assert!(DenseArray::from_shape_vec((2, 3), vec![1, 2, 3, 4, 5]).is_none());
    assert!(DenseArray::from_shape_vec((2, 3), vec![1, 2, 3, 4, 5, 6, 7]).is_none());
    assert!(DenseArray::from_shape_vec((usize::MAX, 2), vec![1, 2]).is_none());
    assert!(DenseArray::<u8>::from_shape_vec((0, 5), vec![]).is_some());
}

#[test]
fn rows_and_cells_in_row_major_order() {
    let a = DenseArray::from_shape_vec((2, 3), vec![1, 2, 3, 4, 5, 6]).unwrap();
    assert_eq!(a.dim(), (2, 3));
    assert_eq!(a.nrows(), 2);
    assert_eq!(a.ncols(), 3);
    assert_eq!(a.row(1), &[4, 5, 6]);
    assert_eq!(*a.get(1, 0), 4);
    assert_eq!(*a.get(0, 2), 3);
    assert_eq!(a.as_slice(), &[1, 2, 3, 4, 5, 6]);
    assert_eq!(a.into_raw_vec(), vec![1, 2, 3, 4, 5, 6]);
}

#[test]
fn rows_of_width_zero() {
    let a: DenseArray<u8> = DenseArray::from_shape_vec((4, 0), vec![]).unwrap();
    assert_eq!(a.dim(), (4, 0));
    assert!(a.row(3).is_empty());
}
