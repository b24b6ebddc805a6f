use vstd::prelude::*;

use crate::column::{Column, ColumnV};
use crate::schema::{parse_schema, ColumnDefV, Schema};
use parquet::data_type::{ByteArray, ByteArrayType, Int32Type};
use parquet::errors::ParquetError;
use parquet::file::writer::SerializedFileWriter;

verus! {

/// A failure of one table-write attempt.
#[derive(Debug)]
pub enum WriteError {
    /// A file-system or encoding failure outside the data model.
    Io { message: String },
    /// The schema declares more columns than were supplied; carries the
    /// number of columns the data did supply.
    SchemaColumnCountMismatch { expected_from_data: usize },
    /// The declared type at this position disagrees with the supplied
    /// column's variant.
    TypeMismatch { column_index: usize },
    /// The column at this position does not share the first column's row
    /// count.
    RowCountMismatch { column_index: usize },
}

/// The supplied column at one position agrees with the declared type there.
pub open spec fn column_matches(d: ColumnDefV, c: ColumnV) -> bool {
    d.logical_type == c.typ()
}

/// The first `k` supplied columns agree with the first `k` declared types.
pub open spec fn types_agree_upto(defs: Seq<ColumnDefV>, cols: Seq<ColumnV>, k: int) -> bool {
    forall|i: int| 0 <= i < k ==> column_matches(defs[i], cols[i])
}

/// The first `k` supplied columns share the first column's row count.
pub open spec fn rows_agree_upto(cols: Seq<ColumnV>, k: int) -> bool {
    forall|i: int| 0 <= i < k ==> #[trigger] cols[i].rows() == cols[0].rows()
}

/// A schema/column combination the writer accepts: at least as many data
/// columns as declared ones (trailing data columns are silently ignored),
/// agreeing types position by position, and one shared row count across the
/// columns that are written.
pub open spec fn table_valid(defs: Seq<ColumnDefV>, cols: Seq<ColumnV>) -> bool {
    &&& defs.len() <= cols.len()
    &&& types_agree_upto(defs, cols, defs.len() as int)
    &&& rows_agree_upto(cols, defs.len() as int)
}

/// Which failure `write` reports for an invalid combination, and exactly
/// when: the checks run in schema order, position by position, so the error
/// names the first offending position of its kind.
pub open spec fn write_error_spec(defs: Seq<ColumnDefV>, cols: Seq<ColumnV>, e: WriteError) -> bool {
    match e {
        WriteError::Io { .. } => false,
        WriteError::SchemaColumnCountMismatch { expected_from_data } => {
            &&& expected_from_data == cols.len()
            &&& cols.len() < defs.len()
            &&& types_agree_upto(defs, cols, cols.len() as int)
        },
        WriteError::TypeMismatch { column_index } => {
            &&& column_index < defs.len()
            &&& column_index < cols.len()
            &&& !column_matches(defs[column_index as int], cols[column_index as int])
            &&& types_agree_upto(defs, cols, column_index as int)
        },
        WriteError::RowCountMismatch { column_index } => {
            &&& defs.len() <= cols.len()
            &&& types_agree_upto(defs, cols, defs.len() as int)
            &&& 0 < column_index < defs.len()
            &&& cols[column_index as int].rows() != cols[0].rows()
            &&& rows_agree_upto(cols, column_index as int)
        },
    }
}

/// Positionally validate supplied columns against a compiled schema,
/// reporting the first defect in schema order.
pub fn validate(schema: &Schema, columns: &Vec<Column>) -> (r: Result<(), WriteError>)
    ensures
        r is Ok <==> table_valid(schema@, columns.deep_view()),
        r matches Err(e) ==> write_error_spec(schema@, columns.deep_view(), e),
{
    let ndefs = schema.len();
    let ncols = columns.len();
    let mut i: usize = 0;
    while i < ndefs
        invariant
            0 <= i <= ndefs,
            ndefs == schema@.len(),
            ncols == columns.deep_view().len(),
            i > 0 ==> i <= ncols,
            types_agree_upto(schema@, columns.deep_view(), i as int),
        decreases ndefs - i,
    {
        if i >= ncols {
            return Err(WriteError::SchemaColumnCountMismatch { expected_from_data: ncols });
        }
        proof {
            assert(columns.deep_view()[i as int] == columns@[i as int]@);
        }
        if schema.column(i).logical_type != columns[i].logical_type() {
            return Err(WriteError::TypeMismatch { column_index: i });
        }
        i = i + 1;
    }
    if ndefs > 0 {
        let first_rows = columns[0].row_count();
        proof {
            assert(columns.deep_view()[0] == columns@[0]@);
        }
        let mut k: usize = 1;
        while k < ndefs
            invariant
                1 <= k <= ndefs,
                ndefs == schema@.len(),
                ndefs <= columns.deep_view().len(),
                types_agree_upto(schema@, columns.deep_view(), ndefs as int),
                first_rows == columns.deep_view()[0].rows(),
                rows_agree_upto(columns.deep_view(), k as int),
            decreases ndefs - k,
        {
            proof {
                assert(columns.deep_view()[k as int] == columns@[k as int]@);
            }
            if columns[k].row_count() != first_rows {
                return Err(WriteError::RowCountMismatch { column_index: k });
            }
            k = k + 1;
        }
    }
    Ok(())
}

/// Definition levels handed to the encoder beside one column: a zero per row
/// of a required column, a one per row of an optional column whose every row
/// holds a value.
pub open spec fn levels_ok(d: ColumnDefV, c: ColumnV, lv: Seq<i16>) -> bool {
    &&& lv.len() == c.rows()
    &&& forall|k: int| 0 <= k < lv.len() ==> lv[k] == (if d.required {
        0i16
    } else {
        1i16
    })
}

fn def_levels_for(required: bool, rows: usize) -> (r: Vec<i16>)
    ensures
        r@.len() == rows,
        forall|k: int| 0 <= k < rows ==> r@[k] == (if required {
            0i16
        } else {
            1i16
        }),
{
    let level: i16 = if required {
        0
    } else {
        1
    };
    let mut out: Vec<i16> = Vec::new();
    let mut k: usize = 0;
    while k < rows
        invariant
            0 <= k <= rows,
            out@.len() == k,
            forall|m: int| 0 <= m < k ==> out@[m] == level,
            level == (if required {
                0i16
            } else {
                1i16
            }),
        decreases rows - k,
    {
        out.push(level);
        k = k + 1;
    }
    out
}

fn build_levels(schema: &Schema, columns: &Vec<Column>) -> (r: Vec<Vec<i16>>)
    requires
        schema@.len() <= columns.deep_view().len(),
    ensures
        r.deep_view().len() == schema@.len(),
        forall|i: int| 0 <= i < schema@.len() ==> levels_ok(
            schema@[i],
            columns.deep_view()[i],
            r.deep_view()[i],
        ),
{
    let ndefs = schema.len();
    let mut out: Vec<Vec<i16>> = Vec::new();
    let mut i: usize = 0;
    while i < ndefs
        invariant
            0 <= i <= ndefs,
            ndefs == schema@.len(),
            ndefs <= columns.deep_view().len(),
            out.deep_view().len() == i,
            forall|m: int| 0 <= m < i ==> levels_ok(
                schema@[m],
                columns.deep_view()[m],
                out.deep_view()[m],
            ),
        decreases ndefs - i,
    {
        proof {
            assert(columns.deep_view()[i as int] == columns@[i as int]@);
        }
        let lv = def_levels_for(schema.column(i).required, columns[i].row_count());
        let ghost old_out = out.deep_view();
        out.push(lv);
        proof {
            assert(lv.deep_view() =~= lv@);
            assert(out.deep_view() =~~= old_out.push(lv@));
        }
        i = i + 1;
    }
    out
}

/// An in-memory file image under construction: parquet's file writer over a
/// byte buffer, held in one opaque struct because the writer's row-group and
/// column handles borrow it and so cannot be declared piecewise.
#[verifier::external_body]
pub struct TableSink {
    inner: SerializedFileWriter<Vec<u8>>,
}

/// The schema text the in-memory file writer was opened with. The text, not
/// only its column definitions, determines the file: the metadata footer
/// serializes the whole schema descriptor, message name included.
pub uninterp spec fn writer_source(w: TableSink) -> Seq<char>;

/// The columns encoded into the in-memory file writer so far.
pub uninterp spec fn writer_contents(w: TableSink) -> Seq<ColumnV>;

/// How many row groups have been written to the in-memory file writer.
pub uninterp spec fn writer_row_groups(w: TableSink) -> nat;

/// The column definitions the in-memory file writer was opened with.
pub open spec fn sink_defs(w: TableSink) -> Seq<ColumnDefV>
    recommends
        parse_schema(writer_source(w)) is Some,
{
    parse_schema(writer_source(w)).unwrap()
}

/// The complete file image that encodes the given columns under the schema
/// compiled from `source`: exactly one row group holding every column,
/// framed by the format's header and metadata footer. The image is a
/// function of the schema text and the columns alone; a conforming reader
/// decodes every column's values from it in original order.
pub uninterp spec fn encoded_table(source: Seq<char>, columns: Seq<ColumnV>) -> Seq<u8>;

#[verifier::external_type_specification]
#[verifier::external_body]
pub struct ExParquetError(ParquetError);

/// Relies on `ParquetError`'s `Display` rendering for the failure's
/// human-readable description.
#[verifier::external_body]
fn parquet_error_string(e: &ParquetError) -> (r: String)
{
    e.to_string()
}

/// Relies on parquet's `parse_message_type`, whose grammar is a superset of
/// the one `parse_schema` describes, and on `SerializedFileWriter::new`,
/// which only records the schema and writes the format's magic bytes into
/// the in-memory buffer, so neither fails on an accepted schema text.
#[verifier::external_body]
fn open_table_writer(source: &str) -> (r: Result<TableSink, ParquetError>)
    requires
        parse_schema(source@) is Some,
    ensures
        r is Ok,
        r matches Ok(w) ==> writer_source(w) == source@
            && writer_contents(w) == Seq::<ColumnV>::empty()
            && writer_row_groups(w) == 0,
{
    let parsed = std::sync::Arc::new(parquet::schema::parser::parse_message_type(source)?);
    let props = std::sync::Arc::new(parquet::file::properties::WriterProperties::builder().build());
    Ok(TableSink { inner: SerializedFileWriter::new(Vec::new(), parsed, props)? })
}

/// Relies on parquet's `next_row_group`, `next_column`, `write_batch` and
/// the column and row-group `close` calls: one column writer is handed out
/// per declared column in order, a batch write of values whose variant
/// agrees with the declared type succeeds, and closing commits the encoded
/// column to the row group. Writing into an in-memory buffer cannot fail,
/// and equal row counts satisfy the row-group close check.
#[verifier::external_body]
fn write_row_group(w: &mut TableSink, columns: &Vec<Column>, levels: &Vec<Vec<i16>>) -> (r:
    Result<(), ParquetError>)
    requires
        parse_schema(writer_source(*old(w))) is Some,
        writer_row_groups(*old(w)) == 0,
        writer_contents(*old(w)) == Seq::<ColumnV>::empty(),
        sink_defs(*old(w)).len() <= columns.deep_view().len(),
        levels.deep_view().len() == sink_defs(*old(w)).len(),
        forall|i: int| 0 <= i < sink_defs(*old(w)).len() ==> column_matches(
            sink_defs(*old(w))[i],
            columns.deep_view()[i],
        ) && levels_ok(sink_defs(*old(w))[i], columns.deep_view()[i], levels.deep_view()[i]),
        rows_agree_upto(columns.deep_view(), sink_defs(*old(w)).len() as int),
    ensures
        r is Ok,
        writer_source(*final(w)) == writer_source(*old(w)),
        writer_row_groups(*final(w)) == 1,
        writer_contents(*final(w)) == columns.deep_view().subrange(
            0,
            sink_defs(*old(w)).len() as int,
        ),
{
    let mut rg = w.inner.next_row_group()?;
    for (c, l) in columns.iter().zip(levels.iter()) {
        let mut cw = rg.next_column()?.unwrap();
        match c {
            Column::Integer(v) => cw.typed::<Int32Type>().write_batch(v, Some(&l[..]), None)?,
            Column::Varchar(v) => cw.typed::<ByteArrayType>()
                .write_batch(&v.iter().map(|x| x.as_str().into()).collect::<Vec<ByteArray>>(), Some(&l[..]), None)?,
        };
        cw.close()?;
    }
    rg.close()?;
    Ok(())
}

/// Relies on parquet's `SerializedFileWriter::into_inner`: with every row
/// group closed, it flushes the metadata footer into the in-memory buffer
/// and hands the buffer back, and cannot fail on one. The single-row-group
/// `requires` keeps `encoded_table` applicable: a writer closed with no row
/// group would produce a different image for the same schema and columns.
#[verifier::external_body]
fn finish_table_writer(w: TableSink) -> (r: Result<Vec<u8>, ParquetError>)
    requires
        writer_row_groups(w) == 1,
    ensures
        r is Ok,
        r matches Ok(b) ==> b@ == encoded_table(writer_source(w), writer_contents(w)),
{
    w.inner.into_inner()
}

/// Stream the supplied columns through one row group under the compiled
/// schema, producing the complete file image, or report the first defect in
/// schema order. Data columns beyond the declared ones are silently ignored.
pub fn write(schema: &Schema, columns: &Vec<Column>) -> (r: Result<Vec<u8>, WriteError>)
    ensures
        r is Ok <==> table_valid(schema@, columns.deep_view()),
        r matches Ok(b) ==> b@ == encoded_table(
            schema.spec_source(),
            columns.deep_view().subrange(0, schema@.len() as int),
        ),
        r matches Err(e) ==> write_error_spec(schema@, columns.deep_view(), e),
{
    match validate(schema, columns) {
        Err(e) => return Err(e),
        Ok(()) => {},
    }
    let levels = build_levels(schema, columns);
    let mut w = match open_table_writer(schema.source_str()) {
        Ok(w) => w,
        Err(e) => return Err(WriteError::Io { message: parquet_error_string(&e) }),
    };
    match write_row_group(&mut w, columns, &levels) {
        Err(e) => return Err(WriteError::Io { message: parquet_error_string(&e) }),
        Ok(()) => {},
    }
    match finish_table_writer(w) {
        Ok(b) => Ok(b),
        Err(e) => Err(WriteError::Io { message: parquet_error_string(&e) }),
    }
}

/// Writing is deterministic: two successful writes of one schema text and
/// one column sequence produce byte-identical file images, since the image
/// is a function of the schema text and the columns alone.
pub proof fn lemma_write_deterministic(
    source: Seq<char>,
    cols: Seq<ColumnV>,
    b1: Seq<u8>,
    b2: Seq<u8>,
)
    requires
        b1 == encoded_table(source, cols),
        b2 == encoded_table(source, cols),
    ensures
        b1 == b2,
{
}

} // verus!
