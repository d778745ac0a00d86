use ndarray_csv::ReadError;

#[test]
fn message_too_few_rows() {
    let e = ReadError::TooFewRows { expected: 3, actual: 2 };
    assert_eq!(e.message(), "Expected 3 rows but got 2 rows");
}

#[test]
fn message_too_many_rows() {
    let e = ReadError::TooManyRows { expected: 10 };
    assert_eq!(e.message(), "Expected 10 rows but got more rows");
}

#[test]
fn message_too_few_columns() {
    let e = ReadError::TooFewColumns { at_row_index: 0, expected: 4, actual: 3 };
    assert_eq!(e.message(), "On row 0, expected 4 columns but got 3 columns");
}

#[test]
fn message_too_many_columns() {
    let e = ReadError::TooManyColumns { at_row_index: 120, expected: 2 };
    assert_eq!(e.message(), "On row 120, expected 2 columns but got more columns");
}

#[test]
fn message_n_columns() {
    let e = ReadError::NColumns { at_row_index: 1, expected: 3, actual: 2 };
    assert_eq!(e.message(), "On row 1, expected 3 columns but got 2 columns");
}

#[test]
fn message_large_count() {
    let e = ReadError::TooManyRows { expected: usize::MAX };
    assert_eq!(e.message(), format!("Expected {} rows but got more rows", usize::MAX));
}

#[test]
fn message_of_codec_error() {
    let inner = csv::Error::from(std::io::Error::new(std::io::ErrorKind::Other, "broken pipe"));
    let expected = inner.to_string();
    let e = ReadError::Decode(inner);
    assert_eq!(e.message(), expected);
    assert!(!e.message().is_empty());
}
