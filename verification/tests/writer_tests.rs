use bytes::Bytes;
use parquet::file::reader::FileReader;
use parquet::file::serialized_reader::SerializedFileReader;
use parquet::record::RowAccessor;
use parquetgen::schema::compile;
use parquetgen::{Column, WriteError};

fn reader_of(bytes: Vec<u8>) -> SerializedFileReader<Bytes> {
    SerializedFileReader::new(Bytes::from(bytes)).expect("file image should be readable")
}

#[test]
fn write_two_int_columns_round_trip() {
    let schema = compile("message schema { required int32 A; required int32 B; }").unwrap();
    let columns = vec![
        Column::Integer(vec![1, 2, 3]),
        Column::Integer(vec![4, 5, 6]),
    ];
    let bytes = parquetgen::writer::write(&schema, &columns).unwrap();
    let reader = reader_of(bytes);
    let rows: Vec<(i32, i32)> = reader
        .get_row_iter(None)
        .unwrap()
        .map(|r| {
            let row = r.unwrap();
            (row.get_int(0).unwrap(), row.get_int(1).unwrap())
        })
        .collect();
    assert_eq!(rows, vec![(1, 4), (2, 5), (3, 6)]);
}

#[test]
fn write_varchar_round_trip() {
    let schema = compile(
        "message schema { required int32 Id; required byte_array Name (utf8); }",
    )
    .unwrap();
    let columns = vec![
        Column::Integer(vec![7, 8]),
        Column::Varchar(vec![String::from("alpha"), String::from("beta")]),
    ];
    let bytes = parquetgen::writer::write(&schema, &columns).unwrap();
    let reader = reader_of(bytes);
    let rows: Vec<(i32, String)> = reader
        .get_row_iter(None)
        .unwrap()
        .map(|r| {
            let row = r.unwrap();
            (row.get_int(0).unwrap(), row.get_string(1).unwrap().clone())
        })
        .collect();
    assert_eq!(
        rows,
        vec![(7, String::from("alpha")), (8, String::from("beta"))]
    );
}

#[test]
fn write_count_mismatch_leaves_no_file_image() {
    let schema = compile(
        "message schema { required int32 A; required int32 B; required int32 C; }",
    )
    .unwrap();
    let columns = vec![
        Column::Integer(vec![1, 2, 3]),
        Column::Integer(vec![4, 5, 6]),
    ];
    let err = parquetgen::writer::write(&schema, &columns).unwrap_err();
    assert!(matches!(
        err,
        WriteError::SchemaColumnCountMismatch {
            expected_from_data: 2
        }
    ));
}

#[test]
fn write_type_mismatch_at_first_position() {
    let schema = compile(
        "message schema { required int32 A; required byte_array B (utf8); }",
    )
    .unwrap();
    let columns = vec![
        Column::Varchar(vec![String::from("x")]),
        Column::Integer(vec![1]),
    ];
    let err = parquetgen::writer::write(&schema, &columns).unwrap_err();
    assert!(matches!(err, WriteError::TypeMismatch { column_index: 0 }));
}

#[test]
fn write_type_mismatch_reports_first_disagreeing_index() {
    let schema = compile("message schema { required int32 A; required int32 B; }").unwrap();
    let columns = vec![
        Column::Integer(vec![1]),
        Column::Varchar(vec![String::from("x")]),
    ];
    let err = parquetgen::writer::write(&schema, &columns).unwrap_err();
    assert!(matches!(err, WriteError::TypeMismatch { column_index: 1 }));
}

#[test]
fn write_twice_is_byte_identical() {
    let schema = compile(
        "message schema { required int32 A; required byte_array B (utf8); }",
    )
    .unwrap();
    let columns = vec![
        Column::Integer(vec![10, 20, 30]),
        Column::Varchar(vec![
            String::from("a"),
            String::from("b"),
            String::from("c"),
        ]),
    ];
    let first = parquetgen::writer::write(&schema, &columns).unwrap();
    let second = parquetgen::writer::write(&schema, &columns).unwrap();
    assert_eq!(first, second);
}

#[test]
fn write_ignores_trailing_data_columns() {
    let schema = compile("message schema { required int32 A; }").unwrap();
    let columns = vec![
        Column::Integer(vec![5, 6]),
        Column::Integer(vec![7, 8]),
    ];
    let bytes = parquetgen::writer::write(&schema, &columns).unwrap();
    let reader = reader_of(bytes);
    let meta = reader.metadata();
    assert_eq!(meta.file_metadata().schema_descr().num_columns(), 1);
    let values: Vec<i32> = reader
        .get_row_iter(None)
        .unwrap()
        .map(|r| r.unwrap().get_int(0).unwrap())
        .collect();
    assert_eq!(values, vec![5, 6]);
}

#[test]
fn write_row_count_mismatch() {
    let schema = compile("message schema { required int32 A; required int32 B; }").unwrap();
    let columns = vec![
        Column::Integer(vec![1, 2]),
        Column::Integer(vec![3]),
    ];
    let err = parquetgen::writer::write(&schema, &columns).unwrap_err();
    assert!(matches!(err, WriteError::RowCountMismatch { column_index: 1 }));
}

#[test]
fn write_optional_column_round_trip() {
    let schema = compile("message schema { optional int32 A; }").unwrap();
    let columns = vec![Column::Integer(vec![41, 42])];
    let bytes = parquetgen::writer::write(&schema, &columns).unwrap();
    let reader = reader_of(bytes);
    let values: Vec<i32> = reader
        .get_row_iter(None)
        .unwrap()
        .map(|r| r.unwrap().get_int(0).unwrap())
        .collect();
    assert_eq!(values, vec![41, 42]);
}

#[test]
fn write_single_row_group() {
    let schema = compile("message schema { required int32 A; }").unwrap();
    let columns = vec![Column::Integer((0..1000).collect())];
    let bytes = parquetgen::writer::write(&schema, &columns).unwrap();
    let reader = reader_of(bytes);
    assert_eq!(reader.metadata().num_row_groups(), 1);
    assert_eq!(reader.metadata().file_metadata().num_rows(), 1000);
}

#[test]
fn write_empty_schema_succeeds() {
    let schema = compile("message m { }").unwrap();
    let columns: Vec<Column> = Vec::new();
    assert!(parquetgen::writer::write(&schema, &columns).is_ok());
}

#[test]
fn write_empty_columns_round_trip() {
    let schema = compile("message m { required int32 A; }").unwrap();
    let columns = vec![Column::Integer(Vec::new())];
    let bytes = parquetgen::writer::write(&schema, &columns).unwrap();
    let reader = reader_of(bytes);
    assert_eq!(reader.metadata().file_metadata().num_rows(), 0);
}

#[test]
fn trailing_data_columns_may_differ_in_row_count() {
    let schema = compile("message schema { required int32 A; }").unwrap();
    let columns = vec![
        Column::Integer(vec![5, 6]),
        Column::Integer(vec![7, 8, 9]),
    ];
    let bytes = parquetgen::writer::write(&schema, &columns).unwrap();
    let reader = reader_of(bytes);
    let values: Vec<i32> = reader
        .get_row_iter(None)
        .unwrap()
        .map(|r| r.unwrap().get_int(0).unwrap())
        .collect();
    assert_eq!(values, vec![5, 6]);
}

#[test]
fn message_name_reaches_the_footer() {
    let schema = compile("message uni { required int32 A; }").unwrap();
    let columns = vec![Column::Integer(vec![1])];
    let bytes = parquetgen::writer::write(&schema, &columns).unwrap();
    let reader = reader_of(bytes);
    assert_eq!(
        reader
            .metadata()
            .file_metadata()
            .schema_descr()
            .root_schema()
            .name(),
        "uni"
    );
}

#[test]
fn message_name_changes_the_image() {
    let columns = vec![Column::Integer(vec![1])];
    let a = parquetgen::writer::write(
        &compile("message a { required int32 X; }").unwrap(),
        &columns,
    )
    .unwrap();
    let b = parquetgen::writer::write(
        &compile("message b { required int32 X; }").unwrap(),
        &columns,
    )
    .unwrap();
    assert_ne!(a, b);
}
