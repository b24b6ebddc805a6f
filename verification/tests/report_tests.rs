use bytes::Bytes;
use parquet::file::reader::FileReader;
use parquet::file::serialized_reader::SerializedFileReader;
use parquet::record::RowAccessor;
use parquetgen::report::{decimal_string, run_table, schema_error_string, status_label, write_error_string, Error};
use parquetgen::{Column, SchemaError, WriteError};

#[test]
fn decimal_string_values() {
    assert_eq!(decimal_string(0), "0");
    assert_eq!(decimal_string(7), "7");
    assert_eq!(decimal_string(10), "10");
    assert_eq!(decimal_string(1234), "1234");
    assert_eq!(decimal_string(usize::MAX), format!("{}", usize::MAX));
}

#[test]
fn count_mismatch_message_text() {
    let msg = write_error_string(&WriteError::SchemaColumnCountMismatch {
        expected_from_data: 2,
    });
    assert_eq!(msg, "Schema contains more columns than provided. (expected 2)");
}

#[test]
fn type_mismatch_message_text() {
    let msg = write_error_string(&WriteError::TypeMismatch { column_index: 1 });
    assert_eq!(msg, "Type mismatch for column 1");
}

#[test]
fn status_label_pads_to_fixed_width() {
    assert_eq!(status_label("abc"), format!("abc{} ", ".".repeat(21)));
    let long = "a".repeat(30);
    assert_eq!(status_label(&long), format!("{} ", long));
}

#[test]
fn error_carries_message() {
    let e = Error::new(String::from("broken"));
    assert_eq!(e.message(), "broken");
}

#[test]
fn run_table_success_line() {
    let columns = vec![Column::Integer(vec![1, 2, 3])];
    let (line, bytes) = run_table(
        "t.parquet",
        "message m { required int32 A; }",
        &columns,
    );
    assert!(bytes.is_some());
    assert_eq!(line, format!("t.parquet{} OK", ".".repeat(15)));
}

#[test]
fn run_table_failure_line() {
    let columns = vec![Column::Integer(vec![1])];
    let (line, bytes) = run_table(
        "t.parquet",
        "message m { required int32 A; required int32 B; }",
        &columns,
    );
    assert!(bytes.is_none());
    assert_eq!(
        line,
        format!(
            "t.parquet{} ERR\nSchema contains more columns than provided. (expected 1)",
            ".".repeat(15)
        )
    );
}

#[test]
fn run_table_schema_failure_line() {
    let columns = vec![Column::Integer(vec![1])];
    let (line, bytes) = run_table("t.parquet", "message m { required int64 A; }", &columns);
    assert!(bytes.is_none());
    assert!(line.contains("ERR\n"));
    assert!(line.contains("Unknown type token"));
}

#[test]
fn batch_isolation_across_three_tables() {
    let tables: Vec<(&str, &str, Vec<Column>)> = vec![
        (
            "one.parquet",
            "message m { required int32 A; }",
            vec![Column::Integer(vec![1, 2])],
        ),
        (
            "two.parquet",
            "message m { required int32 A; required int32 B; }",
            vec![Column::Integer(vec![9])],
        ),
        (
            "three.parquet",
            "message m { required int32 A; }",
            vec![Column::Integer(vec![3, 4])],
        ),
    ];
    let mut lines = Vec::new();
    let mut images = Vec::new();
    for (name, text, columns) in &tables {
        let (line, bytes) = run_table(name, text, columns);
        lines.push(line);
        images.push(bytes);
    }
    assert_eq!(lines.len(), 3);
    assert!(lines[0].ends_with("OK"));
    assert!(lines[1].contains("ERR\n"));
    assert!(lines[2].ends_with("OK"));
    assert!(images[1].is_none());
    for (idx, expected) in [(0usize, vec![1, 2]), (2usize, vec![3, 4])] {
        let bytes = images[idx].clone().unwrap();
        let reader = SerializedFileReader::new(Bytes::from(bytes)).unwrap();
        let values: Vec<i32> = reader
            .get_row_iter(None)
            .unwrap()
            .map(|r| r.unwrap().get_int(0).unwrap())
            .collect();
        assert_eq!(values, expected);
    }
}

#[test]
fn schema_error_message_text() {
    let msg = schema_error_string(&SchemaError::UnknownType { position: 21 });
    assert_eq!(msg, "Unknown type token in schema at position 21");
    let msg = schema_error_string(&SchemaError::UnexpectedEnd);
    assert_eq!(msg, "Schema text ended unexpectedly");
}

#[test]
fn row_count_mismatch_message_text() {
    let msg = write_error_string(&WriteError::RowCountMismatch { column_index: 2 });
    assert_eq!(msg, "Row count mismatch for column 2");
}
