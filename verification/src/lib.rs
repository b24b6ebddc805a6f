//! A verified core for producing columnar table files: a schema compiler for a
//! small declarative column grammar, positional validation of typed in-memory
//! columns against a compiled schema, and a writer that streams the validated
//! columns through a row-group encoding into an in-memory file image.

pub mod column;
pub mod schema;
pub mod report;
pub mod writer;

pub use column::{Column, ColumnV, LogicalType};
pub use schema::{compile, ColumnDef, ColumnDefV, Schema, SchemaError};
pub use report::Error;
pub use writer::WriteError;
