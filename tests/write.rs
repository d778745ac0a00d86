use csv::{ReaderBuilder, WriterBuilder};
use ndarray_csv::{Array2Reader, Array2Writer, DenseArray, ReadError};
use std::collections::BTreeMap;
use std::io::Cursor;

fn sample() -> DenseArray<i32> {
    DenseArray::from_shape_vec((2, 3), vec![1, 2, 3, 4, 5, 6]).unwrap()
}

#[test]
fn test_write_ok() {
    let mut writer = Array2Writer::new(WriterBuilder::new().has_headers(false));
    assert!(matches!(writer.serialize_array2(&sample()), Ok(())));
    assert_eq!(writer.output(), b"1,2,3\n4,5,6\n");
}

#[test]
fn test_write_transposed() {
    let columns = ndarray::Array2::from_shape_vec((3, 2), vec![1, 4, 2, 5, 3, 6]).unwrap();
    let transposed = columns.t().to_owned();
    let array = DenseArray::from_shape_vec(transposed.dim(), transposed.iter().cloned().collect()).unwrap();
    let mut writer = Array2Writer::new(WriterBuilder::new().has_headers(false));
    assert!(matches!(writer.serialize_array2(&array), Ok(())));
    assert_eq!(writer.output(), b"1,2,3\n4,5,6\n");
}

#[test]
fn write_twice_appends() {
    let mut writer = Array2Writer::new(WriterBuilder::new().has_headers(false));
    writer.serialize_array2(&sample()).unwrap();
    let one = DenseArray::from_shape_vec((1, 3), vec![7, 8, 9]).unwrap();
    writer.serialize_array2(&one).unwrap();
    assert_eq!(writer.output(), b"1,2,3\n4,5,6\n7,8,9\n");
}

#[test]
fn write_of_another_width_is_refused_by_a_strict_sink() {
    let mut writer = Array2Writer::new(WriterBuilder::new().has_headers(false));
    writer.serialize_array2(&sample()).unwrap();
    let narrow = DenseArray::from_shape_vec((1, 2), vec![7, 8]).unwrap();
    let err = writer.serialize_array2(&narrow).unwrap_err();
    assert!(matches!(err, ReadError::Sink(_)));
    assert_eq!(writer.output(), b"1,2,3\n4,5,6\n");
}

#[test]
fn write_empty_array_writes_nothing() {
    let mut writer = Array2Writer::new(WriterBuilder::new().has_headers(false));
    let empty: DenseArray<i32> = DenseArray::from_shape_vec((0, 3), vec![]).unwrap();
    writer.serialize_array2(&empty).unwrap();
    assert_eq!(writer.output(), b"");
}

#[test]
fn write_with_builder_settings() {
    let mut writer = Array2Writer::new(WriterBuilder::new().has_headers(false).delimiter(b';'));
    writer.serialize_array2(&sample()).unwrap();
    assert_eq!(writer.output(), b"1;2;3\n4;5;6\n");
}

#[test]
fn write_refused_value_is_sink_error() {
    let mut cell = BTreeMap::new();
    cell.insert(1u8, 2u8);
    let array = DenseArray::from_shape_vec((1, 1), vec![cell]).unwrap();
    let mut writer = Array2Writer::new(WriterBuilder::new().has_headers(false));
    let err = writer.serialize_array2(&array).unwrap_err();
    assert!(matches!(err, ReadError::Sink(_)));
}

#[test]
fn read_then_write_gives_the_rows_back() {
    let text = "1,2,3\n4,5,6\n";
    let reader = ReaderBuilder::new().has_headers(false).from_reader(Cursor::new(text));
    let array: DenseArray<u64> = Array2Reader::new(reader).deserialize_array2((2, 3)).unwrap();
    assert_eq!(array.row(0), &[1, 2, 3]);
    assert_eq!(array.row(1), &[4, 5, 6]);
    let mut writer = Array2Writer::new(WriterBuilder::new().has_headers(false));
    writer.serialize_array2(&array).unwrap();
    assert_eq!(writer.output(), text.as_bytes());
}

#[test]
fn write_then_read_gives_the_array_back() {
    let array = DenseArray::from_shape_vec((3, 2), vec![-1, 0, 7, 8, 100, -200]).unwrap();
    let mut writer = Array2Writer::new(WriterBuilder::new().has_headers(false));
    writer.serialize_array2(&array).unwrap();
    let bytes = writer.output().to_vec();
    let reader = ReaderBuilder::new().has_headers(false).from_reader(Cursor::new(bytes));
    let back: DenseArray<i32> = Array2Reader::new(reader).deserialize_array2(array.dim()).unwrap();
    assert_eq!(back, array);
}

#[test]
fn test_write_err() {
    // The sink refuses the array: a strict encoder that has already taken
    // a record of width 2 rejects records of width 3.
    let mut writer = Array2Writer::new(WriterBuilder::new().has_headers(false));
    let narrow = DenseArray::from_shape_vec((1, 2), vec![0, 0]).unwrap();
    writer.serialize_array2(&narrow).unwrap();
    assert!(matches!(writer.serialize_array2(&sample()), Err(ReadError::Sink(_))));
}
