use ndarray_csv::{DynamicFill, FixedFill, ReadError};

fn io_failure() -> csv::Error {
    csv::Error::from(std::io::Error::new(std::io::ErrorKind::Other, "broken"))
}

#[test]
fn fixed_fill_gathers_rows() {
    let fill = FixedFill::new((2, 2));
    let fill = fill.push_row(Ok(vec![1, 2])).ok().unwrap();
    let fill = fill.push_row(Ok(vec![3, 4])).ok().unwrap();
    let a = fill.finish().unwrap();
    assert_eq!(a.dim(), (2, 2));
    assert_eq!(a.as_slice(), &[1, 2, 3, 4]);
}

#[test]
fn fixed_fill_refuses_an_extra_row() {
    let fill = FixedFill::new((1, 2));
    let fill = fill.push_row(Ok(vec![1, 2])).ok().unwrap();
    let err = fill.push_row(Ok(vec![3, 4])).err().unwrap();
    assert!(matches!(err, ReadError::TooManyRows { expected: 1 }));
}

#[test]
fn fixed_fill_refuses_an_extra_failed_row() {
    let fill = FixedFill::<u8>::new((0, 2));
    let err = fill.push_row(Err(io_failure())).err().unwrap();
    assert!(matches!(err, ReadError::TooManyRows { expected: 0 }));
}

#[test]
fn fixed_fill_passes_on_a_decode_error() {
    let fill = FixedFill::<u8>::new((2, 2));
    let err = fill.push_row(Err(io_failure())).err().unwrap();
    assert!(matches!(err, ReadError::Decode(_)));
}

#[test]
fn fixed_fill_checks_widths() {
    let fill = FixedFill::new((3, 2));
    let fill = fill.push_row(Ok(vec![1, 2])).ok().unwrap();
    let err = fill.push_row(Ok(vec![3])).err().unwrap();
    assert!(matches!(
        err,
        ReadError::TooFewColumns { at_row_index: 1, expected: 2, actual: 1 }
    ));
    let fill = FixedFill::new((3, 2));
    let err = fill.push_row(Ok(vec![1, 2, 3])).err().unwrap();
    assert!(matches!(
        err,
        ReadError::TooManyColumns { at_row_index: 0, expected: 2 }
    ));
}

#[test]
fn fixed_fill_short_of_rows() {
    let fill = FixedFill::new((3, 1));
    let fill = fill.push_row(Ok(vec![9])).ok().unwrap();
    let err = fill.finish().unwrap_err();
    assert!(matches!(err, ReadError::TooFewRows { expected: 3, actual: 1 }));
}

#[test]
fn dynamic_fill_takes_width_from_first_row() {
    let fill = DynamicFill::new();
    assert_eq!(fill.row_count(), 0);
    let fill = fill.push_row(Ok(vec![1, 2, 3])).ok().unwrap();
    let fill = fill.push_row(Ok(vec![4, 5, 6])).ok().unwrap();
    assert_eq!(fill.row_count(), 2);
    let err = fill.push_row(Ok(vec![7])).err().unwrap();
    assert!(matches!(
        err,
        ReadError::NColumns { at_row_index: 2, expected: 3, actual: 1 }
    ));
}

#[test]
fn dynamic_fill_finishes_with_observed_shape() {
    let fill = DynamicFill::new();
    let fill = fill.push_row(Ok(vec![1, 2])).ok().unwrap();
    let fill = fill.push_row(Ok(vec![3, 4])).ok().unwrap();
    let fill = fill.push_row(Ok(vec![5, 6])).ok().unwrap();
    let a = fill.finish();
    assert_eq!(a.dim(), (3, 2));
    assert_eq!(a.as_slice(), &[1, 2, 3, 4, 5, 6]);
}

#[test]
fn dynamic_fill_without_rows_is_empty() {
    let a = DynamicFill::<u8>::new().finish();
    assert_eq!(a.dim(), (0, 0));
}

#[test]
fn dynamic_fill_of_empty_rows() {
    let fill = DynamicFill::<u8>::new();
    let fill = fill.push_row(Ok(vec![])).ok().unwrap();
    let fill = fill.push_row(Ok(vec![])).ok().unwrap();
    let a = fill.finish();
    assert_eq!(a.dim(), (2, 0));
}

#[test]
fn dynamic_fill_passes_on_a_decode_error() {
    let fill = DynamicFill::<u8>::new();
    let fill = fill.push_row(Ok(vec![1])).ok().unwrap();
    let err = fill.push_row(Err(io_failure())).err().unwrap();
    assert!(matches!(err, ReadError::Decode(_)));
}
