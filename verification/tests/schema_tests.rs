use parquetgen::schema::compile;
use parquetgen::{LogicalType, SchemaError};

#[test]
fn compile_two_int_columns() {
    let schema = compile("message schema { required int32 A; required int32 B; }").unwrap();
    assert_eq!(schema.len(), 2);
    assert_eq!(schema.column(0).name, "A");
    assert_eq!(schema.column(1).name, "B");
    assert!(schema.column(0).logical_type == LogicalType::Int32);
    assert!(schema.column(1).logical_type == LogicalType::Int32);
    assert!(schema.column(0).required);
}

#[test]
fn compile_utf8_annotation() {
    let schema = compile(
        "
        message schema {
            required int32 PersNr;
            required byte_array Name (utf8);
        }
    ",
    )
    .unwrap();
    assert_eq!(schema.len(), 2);
    assert!(schema.column(1).logical_type == LogicalType::Utf8String);
    assert_eq!(schema.column(1).name, "Name");
}

#[test]
fn compile_byte_array_without_annotation() {
    let schema = compile("message m { required byte_array Raw; }").unwrap();
    assert!(schema.column(0).logical_type == LogicalType::Utf8String);
}

#[test]
fn compile_optional_column() {
    let schema = compile("message m { optional int32 Raum; }").unwrap();
    assert!(!schema.column(0).required);
}

#[test]
fn compile_duplicate_names_are_kept_in_order() {
    let schema = compile(
        "message schema { required int32 PersNr; required byte_array PersNr (utf8); }",
    )
    .unwrap();
    assert_eq!(schema.len(), 2);
    assert_eq!(schema.column(0).name, "PersNr");
    assert_eq!(schema.column(1).name, "PersNr");
}

#[test]
fn compile_unknown_type_token() {
    let err = compile("message m { required int64 X; }").unwrap_err();
    assert!(matches!(err, SchemaError::UnknownType { .. }));
}

#[test]
fn compile_missing_semicolon() {
    assert!(compile("message m { required int32 X }").is_err());
}

#[test]
fn compile_missing_message_keyword() {
    let err = compile("schema m { required int32 X; }").unwrap_err();
    assert!(matches!(
        err,
        SchemaError::UnexpectedToken { .. } | SchemaError::UnexpectedEnd
    ));
}

#[test]
fn compile_trailing_text_rejected() {
    assert!(compile("message m { required int32 X; } trailing").is_err());
}

#[test]
fn compile_unclosed_body() {
    let err = compile("message m { required int32 X;").unwrap_err();
    assert!(matches!(
        err,
        SchemaError::UnexpectedToken { .. } | SchemaError::UnexpectedEnd
    ));
}

#[test]
fn compile_annotation_on_int32_rejected() {
    assert!(compile("message m { required int32 X (utf8); }").is_err());
}

#[test]
fn compile_empty_text() {
    assert!(compile("").is_err());
}

#[test]
fn compile_unknown_type_position() {
    let err = compile("message m { required int64 X; }").unwrap_err();
    assert!(matches!(err, SchemaError::UnknownType { position: 21 }));
}
