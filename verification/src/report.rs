use vstd::prelude::*;

use crate::column::Column;
use crate::schema::{compile, parse_schema, parse_schema_err, SchemaError};
use crate::writer::{encoded_table, table_valid, write_error_spec, WriteError};

verus! {

/// A generic failure with a human-readable message, as the batch reporter
/// prints it under a table's status line.
#[derive(Debug)]
pub struct Error {
    message: String,
}

impl View for Error {
    type V = Seq<char>;

    closed spec fn view(&self) -> Seq<char> {
        self.message@
    }
}

impl Error {
    /// Wrap a message.
    pub fn new(msg: String) -> (r: Box<Self>)
        ensures
            r@ == msg@,
    {
        Box::new(Self { message: msg })
    }

    /// The wrapped message.
    pub fn message(&self) -> (r: &str)
        ensures
            r@ == self@,
    {
        self.message.as_str()
    }
}

/// The decimal digit character for `d`.
pub open spec fn digit_char(d: int) -> char {
    if d == 0 {
        '0'
    } else if d == 1 {
        '1'
    } else if d == 2 {
        '2'
    } else if d == 3 {
        '3'
    } else if d == 4 {
        '4'
    } else if d == 5 {
        '5'
    } else if d == 6 {
        '6'
    } else if d == 7 {
        '7'
    } else if d == 8 {
        '8'
    } else {
        '9'
    }
}

/// The decimal rendering of a non-negative number, most significant digit
/// first, without leading zeroes (a lone zero for zero).
pub open spec fn spec_decimal(n: int) -> Seq<char>
    decreases n when n >= 0
{
    if n < 10 {
        seq![digit_char(n)]
    } else {
        spec_decimal(n / 10).push(digit_char(n % 10))
    }
}

fn digit_str(d: usize) -> (r: &'static str)
    requires
        d < 10,
    ensures
        r@ == seq![digit_char(d as int)],
{
    let s: &'static str = match d {
        0 => "0",
        1 => "1",
        2 => "2",
        3 => "3",
        4 => "4",
        5 => "5",
        6 => "6",
        7 => "7",
        8 => "8",
        _ => "9",
    };
    proof {
        reveal_strlit("0");
        reveal_strlit("1");
        reveal_strlit("2");
        reveal_strlit("3");
        reveal_strlit("4");
        reveal_strlit("5");
        reveal_strlit("6");
        reveal_strlit("7");
        reveal_strlit("8");
        reveal_strlit("9");
        assert(s@ =~= seq![digit_char(d as int)]);
    }
    s
}

/// Render a number in decimal.
pub fn decimal_string(n: usize) -> (r: String)
    ensures
        r@ == spec_decimal(n as int),
{
    let mut acc = String::from_str(digit_str(n % 10));
    let mut m: usize = n / 10;
    proof {
        if m == 0 {
            assert(n < 10 && n % 10 == n as int);
        } else {
            assert(spec_decimal(n as int) =~= spec_decimal(m as int) + acc@);
        }
    }
    while m != 0
        invariant
            m > 0 ==> spec_decimal(n as int) == spec_decimal(m as int) + acc@,
            m == 0 ==> acc@ == spec_decimal(n as int),
        decreases m,
    {
        let ghost old_acc = acc@;
        let ghost old_m = m as int;
        let d = m % 10;
        acc = String::from_str(digit_str(d)).concat(acc.as_str());
        m = m / 10;
        proof {
            if m == 0 {
                assert(old_m < 10 && old_m % 10 == old_m);
                assert(spec_decimal(old_m) =~= seq![digit_char(old_m % 10)]);
                assert(acc@ =~= spec_decimal(old_m) + old_acc);
            } else {
                assert(spec_decimal(old_m) =~= spec_decimal(old_m / 10).push(
                    digit_char(old_m % 10),
                ));
                assert(spec_decimal(old_m) + old_acc =~= spec_decimal(m as int) + acc@);
            }
        }
    }
    acc
}

/// The message printed for a malformed schema text.
pub open spec fn schema_error_message(e: SchemaError) -> Seq<char> {
    match e {
        SchemaError::UnexpectedEnd => "Schema text ended unexpectedly"@,
        SchemaError::UnexpectedToken { position } => "Unexpected token in schema at position "@
            + spec_decimal(position as int),
        SchemaError::UnknownType { position } => "Unknown type token in schema at position "@
            + spec_decimal(position as int),
    }
}

/// Render the message for a malformed schema text.
pub fn schema_error_string(e: &SchemaError) -> (r: String)
    ensures
        r@ == schema_error_message(*e),
{
    match e {
        SchemaError::UnexpectedEnd => String::from_str("Schema text ended unexpectedly"),
        SchemaError::UnexpectedToken { position } => String::from_str(
            "Unexpected token in schema at position ",
        ).concat(decimal_string(*position).as_str()),
        SchemaError::UnknownType { position } => String::from_str(
            "Unknown type token in schema at position ",
        ).concat(decimal_string(*position).as_str()),
    }
}

/// The message printed for a failed table write.
pub open spec fn write_error_message(e: WriteError) -> Seq<char> {
    match e {
        WriteError::Io { message } => message@,
        WriteError::SchemaColumnCountMismatch { expected_from_data } =>
            "Schema contains more columns than provided. (expected "@ + spec_decimal(
            expected_from_data as int,
        ) + ")"@,
        WriteError::TypeMismatch { column_index } => "Type mismatch for column "@ + spec_decimal(
            column_index as int,
        ),
        WriteError::RowCountMismatch { column_index } => "Row count mismatch for column "@
            + spec_decimal(column_index as int),
    }
}

/// Render the message for a failed table write.
pub fn write_error_string(e: &WriteError) -> (r: String)
    ensures
        r@ == write_error_message(*e),
{
    match e {
        WriteError::Io { message } => message.clone(),
        WriteError::SchemaColumnCountMismatch { expected_from_data } => String::from_str(
            "Schema contains more columns than provided. (expected ",
        ).concat(decimal_string(*expected_from_data).as_str()).concat(")"),
        WriteError::TypeMismatch { column_index } => String::from_str(
            "Type mismatch for column ",
        ).concat(decimal_string(*column_index).as_str()),
        WriteError::RowCountMismatch { column_index } => String::from_str(
            "Row count mismatch for column ",
        ).concat(decimal_string(*column_index).as_str()),
    }
}

/// A file-name label padded with dots to a fixed width, then one space, as
/// the status line starts.
pub open spec fn label_of(name: Seq<char>) -> Seq<char> {
    if name.len() >= 24 {
        name + " "@
    } else {
        name + Seq::new((24 - name.len()) as nat, |i: int| '.') + " "@
    }
}

/// Render the fixed-width label that starts a status line.
pub fn status_label(name: &str) -> (r: String)
    ensures
        r@ == label_of(name@),
{
    let n = name.unicode_len();
    let mut out = String::from_str(name);
    let mut k = n;
    while k < 24
        invariant
            n <= k,
            n == name@.len(),
            k <= 24 || k == n,
            out@ =~= name@ + Seq::new((k - n) as nat, |i: int| '.'),
        decreases 24 - k,
    {
        out.append(".");
        k = k + 1;
        proof {
            reveal_strlit(".");
            assert(out@ =~= name@ + Seq::new((k - n) as nat, |i: int| '.'));
        }
    }
    out.append(" ");
    proof {
        if n >= 24 {
            assert(name@ + Seq::new(0nat, |i: int| '.') =~= name@);
            assert(out@ =~= name@ + " "@);
        }
    }
    out
}

/// Compile one table's schema and write its columns, handing back the file
/// image, or the failure's message; a compile failure is reported the same
/// way as a write failure.
pub fn process_table(schema_text: &str, columns: &Vec<Column>) -> (r: Result<Vec<u8>, Box<Error>>)
    ensures
        r is Ok <==> (parse_schema(schema_text@) is Some && table_valid(
            parse_schema(schema_text@).unwrap(),
            columns.deep_view(),
        )),
        r matches Ok(b) ==> b@ == encoded_table(
            schema_text@,
            columns.deep_view().subrange(0, parse_schema(schema_text@).unwrap().len() as int),
        ),
        r matches Err(e) ==> (parse_schema(schema_text@) is None && e@ == schema_error_message(
            parse_schema_err(schema_text@),
        )) || (parse_schema(schema_text@) is Some && exists|we: WriteError| write_error_spec(
            parse_schema(schema_text@).unwrap(),
            columns.deep_view(),
            we,
        ) && e@ == write_error_message(we)),
{
    let schema = match compile(schema_text) {
        Ok(s) => s,
        Err(se) => {
            let msg = schema_error_string(&se);
            proof {
                assert(msg@ == schema_error_message(se));
            }
            return Err(Error::new(msg));
        },
    };
    match crate::writer::write(&schema, columns) {
        Ok(b) => Ok(b),
        Err(we) => {
            let msg = write_error_string(&we);
            proof {
                assert(msg@ == write_error_message(we));
            }
            Err(Error::new(msg))
        },
    }
}

/// The status line for one table: the padded label, then `OK`, or `ERR` and
/// the failure's message on the next line.
pub open spec fn status_line_of(name: Seq<char>, outcome: Result<Seq<u8>, Seq<char>>) -> Seq<char> {
    match outcome {
        Ok(_) => label_of(name) + "OK"@,
        Err(msg) => label_of(name) + "ERR\n"@ + msg,
    }
}

/// Process one table independently of any other: compile, write, and render
/// its status line. The file image is handed back only on success.
pub fn run_table(filename: &str, schema_text: &str, columns: &Vec<Column>) -> (r: (
    String,
    Option<Vec<u8>>,
))
    ensures
        r.1 is Some <==> (parse_schema(schema_text@) is Some && table_valid(
            parse_schema(schema_text@).unwrap(),
            columns.deep_view(),
        )),
        r.1 matches Some(b) ==> b@ == encoded_table(
            schema_text@,
            columns.deep_view().subrange(0, parse_schema(schema_text@).unwrap().len() as int),
        ) && r.0@ == status_line_of(filename@, Ok(b@)),
        r.1 is None ==> (parse_schema(schema_text@) is None && r.0@ == status_line_of(
            filename@,
            Err(schema_error_message(parse_schema_err(schema_text@))),
        )) || (parse_schema(schema_text@) is Some && exists|we: WriteError| write_error_spec(
            parse_schema(schema_text@).unwrap(),
            columns.deep_view(),
            we,
        ) && r.0@ == status_line_of(filename@, Err(write_error_message(we)))),
{
    match process_table(schema_text, columns) {
        Ok(b) => {
            let line = status_label(filename).concat("OK");
            proof {
                assert(line@ == status_line_of(filename@, Ok::<Seq<u8>, Seq<char>>(b@)));
            }
            (line, Some(b))
        },
        Err(e) => {
            let line = status_label(filename).concat("ERR\n").concat(e.message());
            proof {
                assert(line@ =~= label_of(filename@) + "ERR\n"@ + e@);
                assert(line@ == status_line_of(filename@, Err::<Seq<u8>, Seq<char>>(e@)));
                if parse_schema(schema_text@) is Some {
                    let we = choose|we: WriteError| write_error_spec(
                        parse_schema(schema_text@).unwrap(),
                        columns.deep_view(),
                        we,
                    ) && e@ == write_error_message(we);
                    assert(write_error_spec(
                        parse_schema(schema_text@).unwrap(),
                        columns.deep_view(),
                        we,
                    ) && line@ == status_line_of(filename@, Err(write_error_message(we))));
                }
            }
            (line, None)
        },
    }
}

} // verus!
