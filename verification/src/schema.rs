use vstd::prelude::*;

use crate::column::LogicalType;

verus! {

/// Mathematical model of one column definition of a schema.
pub struct ColumnDefV {
    pub name: Seq<char>,
    pub logical_type: LogicalType,
    pub required: bool,
}

/// One column definition: name, primitive logical type, and whether a value
/// is required in every row.
#[derive(Debug, Clone)]
pub struct ColumnDef {
    pub name: String,
    pub logical_type: LogicalType,
    pub required: bool,
}

impl View for ColumnDef {
    type V = ColumnDefV;

    open spec fn view(&self) -> ColumnDefV {
        ColumnDefV { name: self.name@, logical_type: self.logical_type, required: self.required }
    }
}

impl DeepView for ColumnDef {
    type V = ColumnDefV;

    open spec fn deep_view(&self) -> ColumnDefV {
        self.view()
    }
}

/// A malformed schema text, with the character position of the offence.
#[derive(Clone, Copy, PartialEq, Eq, Structural, Debug)]
pub enum SchemaError {
    /// The text ended where a token was still expected.
    UnexpectedEnd,
    /// The token starting at this character position is not the one the
    /// grammar expects there.
    UnexpectedToken { position: usize },
    /// The token starting at this character position is not a known
    /// primitive type.
    UnknownType { position: usize },
}

/// Whitespace accepted between tokens of the schema grammar.
pub open spec fn is_space_char(c: char) -> bool {
    c == ' ' || c == '\n' || c == '\t' || c == '\r'
}

/// Characters that may start an identifier.
pub open spec fn is_ident_start_char(c: char) -> bool {
    ('a' <= c && c <= 'z') || ('A' <= c && c <= 'Z') || c == '_'
}

/// Characters that may continue an identifier.
pub open spec fn is_ident_char(c: char) -> bool {
    is_ident_start_char(c) || ('0' <= c && c <= '9')
}

/// The first position at or after `i` holding a non-whitespace character.
pub open spec fn skip_ws(s: Seq<char>, i: int) -> int
    decreases s.len() - i when 0 <= i <= s.len()
{
    if i < s.len() && is_space_char(s[i]) {
        skip_ws(s, i + 1)
    } else {
        i
    }
}

/// The first position at or after `i` holding a non-identifier character.
pub open spec fn scan_ident(s: Seq<char>, i: int) -> int
    decreases s.len() - i when 0 <= i <= s.len()
{
    if i < s.len() && is_ident_char(s[i]) {
        scan_ident(s, i + 1)
    } else {
        i
    }
}

/// One column clause of the grammar, starting at position `i`:
/// `<required|optional> <int32|byte_array> <name> [(utf8)] ;`
/// On success, the parsed definition and the position just after the `;`.
pub open spec fn parse_field(s: Seq<char>, i: int) -> Option<(ColumnDefV, int)> {
    let r0 = skip_ws(s, i);
    let r1 = scan_ident(s, r0);
    if s.subrange(r0, r1) =~= "required"@ || s.subrange(r0, r1) =~= "optional"@ {
        let required = s.subrange(r0, r1) =~= "required"@;
        let t0 = skip_ws(s, r1);
        let t1 = scan_ident(s, t0);
        if s.subrange(t0, t1) =~= "int32"@ || s.subrange(t0, t1) =~= "byte_array"@ {
            let logical = if s.subrange(t0, t1) =~= "int32"@ {
                LogicalType::Int32
            } else {
                LogicalType::Utf8String
            };
            let n0 = skip_ws(s, t1);
            let n1 = scan_ident(s, n0);
            if n0 < n1 && is_ident_start_char(s[n0]) {
                let def = ColumnDefV { name: s.subrange(n0, n1), logical_type: logical, required };
                let a0 = skip_ws(s, n1);
                if a0 < s.len() && s[a0] == '(' {
                    if logical == LogicalType::Utf8String {
                        let u0 = skip_ws(s, a0 + 1);
                        let u1 = scan_ident(s, u0);
                        if s.subrange(u0, u1) =~= "utf8"@ {
                            let c0 = skip_ws(s, u1);
                            if c0 < s.len() && s[c0] == ')' {
                                let e0 = skip_ws(s, c0 + 1);
                                if e0 < s.len() && s[e0] == ';' {
                                    Some((def, e0 + 1))
                                } else {
                                    None
                                }
                            } else {
                                None
                            }
                        } else {
                            None
                        }
                    } else {
                        None
                    }
                } else {
                    if a0 < s.len() && s[a0] == ';' {
                        Some((def, a0 + 1))
                    } else {
                        None
                    }
                }
            } else {
                None
            }
        } else {
            None
        }
    } else {
        None
    }
}

/// The column clauses of a schema body from position `i` up to and including
/// the closing `}`. On success, the definitions in order and the position
/// just after the `}`.
pub open spec fn parse_fields(s: Seq<char>, i: int) -> Option<(Seq<ColumnDefV>, int)>
    decreases s.len() - i when 0 <= i <= s.len()
{
    let j = skip_ws(s, i);
    if 0 <= j < s.len() && s[j] == '}' {
        Some((Seq::empty(), j + 1))
    } else {
        match parse_field(s, i) {
            None => None,
            Some((d, k)) => if i < k <= s.len() {
                match parse_fields(s, k) {
                    None => None,
                    Some((ds, e)) => Some((seq![d] + ds, e)),
                }
            } else {
                None
            },
        }
    }
}

/// The whole schema grammar: `message <name> { <column clauses> }`, with
/// nothing but whitespace after the closing brace. On success, the ordered
/// column definitions.
pub open spec fn parse_schema(s: Seq<char>) -> Option<Seq<ColumnDefV>> {
    let m0 = skip_ws(s, 0);
    let m1 = scan_ident(s, m0);
    if s.subrange(m0, m1) =~= "message"@ {
        let n0 = skip_ws(s, m1);
        let n1 = scan_ident(s, n0);
        if n0 < n1 && is_ident_start_char(s[n0]) {
            let b0 = skip_ws(s, n1);
            if b0 < s.len() && s[b0] == '{' {
                match parse_fields(s, b0 + 1) {
                    None => None,
                    Some((ds, e)) => if skip_ws(s, e) == s.len() {
                        Some(ds)
                    } else {
                        None
                    },
                }
            } else {
                None
            }
        } else {
            None
        }
    } else {
        None
    }
}

/// The error reported for a token the grammar does not expect at `pos` in a
/// text of `len` characters: the end of the text, or an offending token.
pub open spec fn expect_err_at(len: int, pos: int) -> SchemaError {
    if pos >= len {
        SchemaError::UnexpectedEnd
    } else {
        SchemaError::UnexpectedToken { position: pos as usize }
    }
}

/// Which error a column clause starting at position `i` is reported with,
/// following the same cascade as `parse_field`; meaningful only where
/// `parse_field` fails.
pub open spec fn parse_field_err(s: Seq<char>, i: int) -> SchemaError
    recommends
        parse_field(s, i) is None,
{
    let r0 = skip_ws(s, i);
    let r1 = scan_ident(s, r0);
    if !(s.subrange(r0, r1) =~= "required"@ || s.subrange(r0, r1) =~= "optional"@) {
        expect_err_at(s.len() as int, r0)
    } else {
        let t0 = skip_ws(s, r1);
        let t1 = scan_ident(s, t0);
        if !(s.subrange(t0, t1) =~= "int32"@ || s.subrange(t0, t1) =~= "byte_array"@) {
            SchemaError::UnknownType { position: t0 as usize }
        } else {
            let logical = if s.subrange(t0, t1) =~= "int32"@ {
                LogicalType::Int32
            } else {
                LogicalType::Utf8String
            };
            let n0 = skip_ws(s, t1);
            let n1 = scan_ident(s, n0);
            if !(n0 < n1 && is_ident_start_char(s[n0])) {
                expect_err_at(s.len() as int, n0)
            } else {
                let a0 = skip_ws(s, n1);
                if a0 < s.len() && s[a0] == '(' {
                    if logical != LogicalType::Utf8String {
                        SchemaError::UnexpectedToken { position: a0 as usize }
                    } else {
                        let u0 = skip_ws(s, a0 + 1);
                        let u1 = scan_ident(s, u0);
                        if !(s.subrange(u0, u1) =~= "utf8"@) {
                            expect_err_at(s.len() as int, u0)
                        } else {
                            let c0 = skip_ws(s, u1);
                            if !(c0 < s.len() && s[c0] == ')') {
                                expect_err_at(s.len() as int, c0)
                            } else {
                                expect_err_at(s.len() as int, skip_ws(s, c0 + 1))
                            }
                        }
                    }
                } else {
                    expect_err_at(s.len() as int, a0)
                }
            }
        }
    }
}

/// Which error a schema body starting at position `i` is reported with: the
/// error of its first failing column clause; meaningful only where
/// `parse_fields` fails.
pub open spec fn parse_fields_err(s: Seq<char>, i: int) -> SchemaError
    recommends
        parse_fields(s, i) is None,
    decreases s.len() - i when 0 <= i <= s.len()
{
    let j = skip_ws(s, i);
    if 0 <= j < s.len() && s[j] == '}' {
        SchemaError::UnexpectedEnd
    } else {
        match parse_field(s, i) {
            None => parse_field_err(s, i),
            Some((d, k)) => if i < k <= s.len() {
                parse_fields_err(s, k)
            } else {
                SchemaError::UnexpectedEnd
            },
        }
    }
}

/// Which error a schema text is reported with, following the same cascade
/// as `parse_schema`; meaningful only where `parse_schema` fails.
pub open spec fn parse_schema_err(s: Seq<char>) -> SchemaError
    recommends
        parse_schema(s) is None,
{
    let m0 = skip_ws(s, 0);
    let m1 = scan_ident(s, m0);
    if !(s.subrange(m0, m1) =~= "message"@) {
        expect_err_at(s.len() as int, m0)
    } else {
        let n0 = skip_ws(s, m1);
        let n1 = scan_ident(s, n0);
        if !(n0 < n1 && is_ident_start_char(s[n0])) {
            expect_err_at(s.len() as int, n0)
        } else {
            let b0 = skip_ws(s, n1);
            if !(b0 < s.len() && s[b0] == '{') {
                expect_err_at(s.len() as int, b0)
            } else {
                match parse_fields(s, b0 + 1) {
                    None => parse_fields_err(s, b0 + 1),
                    Some((ds, e)) => SchemaError::UnexpectedToken {
                        position: skip_ws(s, e) as usize,
                    },
                }
            }
        }
    }
}

fn is_space_exec(c: char) -> (r: bool)
    ensures
        r == is_space_char(c),
{
    c == ' ' || c == '\n' || c == '\t' || c == '\r'
}

fn is_ident_start_exec(c: char) -> (r: bool)
    ensures
        r == is_ident_start_char(c),
{
    ('a' <= c && c <= 'z') || ('A' <= c && c <= 'Z') || c == '_'
}

fn is_ident_exec(c: char) -> (r: bool)
    ensures
        r == is_ident_char(c),
{
    is_ident_start_exec(c) || ('0' <= c && c <= '9')
}

fn skip_ws_exec(s: &str, n: usize, i: usize) -> (r: usize)
    requires
        i <= n,
        n == s@.len(),
    ensures
        r as int == skip_ws(s@, i as int),
        i <= r <= n,
{
    let mut cur = i;
    while cur < n && is_space_exec(s.get_char(cur))
        invariant
            i <= cur <= n,
            n == s@.len(),
            skip_ws(s@, i as int) == skip_ws(s@, cur as int),
        decreases n - cur,
    {
        cur = cur + 1;
    }
    cur
}

fn scan_ident_exec(s: &str, n: usize, i: usize) -> (r: usize)
    requires
        i <= n,
        n == s@.len(),
    ensures
        r as int == scan_ident(s@, i as int),
        i <= r <= n,
{
    let mut cur = i;
    while cur < n && is_ident_exec(s.get_char(cur))
        invariant
            i <= cur <= n,
            n == s@.len(),
            scan_ident(s@, i as int) == scan_ident(s@, cur as int),
        decreases n - cur,
    {
        cur = cur + 1;
    }
    cur
}

/// Whether the characters of `s` in `[i, j)` are exactly the keyword `kw`.
fn keyword_at(s: &str, n: usize, i: usize, j: usize, kw: &str) -> (r: bool)
    requires
        i <= j <= n,
        n == s@.len(),
    ensures
        r <==> s@.subrange(i as int, j as int) == kw@,
{
    let klen = kw.unicode_len();
    if j - i != klen {
        proof {
            assert(s@.subrange(i as int, j as int).len() == j - i);
        }
        return false;
    }
    let mut k: usize = 0;
    while k < klen
        invariant
            0 <= k <= klen,
            klen == kw@.len(),
            j - i == klen,
            i <= j <= n,
            n == s@.len(),
            forall|m: int| 0 <= m < k ==> s@[i + m] == kw@[m],
        decreases klen - k,
    {
        if s.get_char(i + k) != kw.get_char(k) {
            proof {
                assert(s@.subrange(i as int, j as int)[k as int] == s@[i + k]);
            }
            return false;
        }
        k = k + 1;
    }
    proof {
        assert(s@.subrange(i as int, j as int) =~= kw@);
    }
    true
}

/// The error for a token that the grammar does not expect at `pos`:
/// the end of the text, or an offending token.
fn expect_err(n: usize, pos: usize) -> (r: SchemaError)
    ensures
        r == expect_err_at(n as int, pos as int),
{
    if pos >= n {
        SchemaError::UnexpectedEnd
    } else {
        SchemaError::UnexpectedToken { position: pos }
    }
}

/// Parse one column clause starting at position `i`.
fn parse_field_exec(s: &str, n: usize, i: usize) -> (r: Result<(ColumnDef, usize), SchemaError>)
    requires
        i <= n,
        n == s@.len(),
    ensures
        match r {
            Ok((d, k)) => parse_field(s@, i as int) == Some((d@, k as int)) && i < k <= n,
            Err(e) => parse_field(s@, i as int) is None && e == parse_field_err(s@, i as int),
        },
{
    let r0 = skip_ws_exec(s, n, i);
    let r1 = scan_ident_exec(s, n, r0);
    let required: bool;
    if keyword_at(s, n, r0, r1, "required") {
        required = true;
    } else if keyword_at(s, n, r0, r1, "optional") {
        required = false;
    } else {
        return Err(expect_err(n, r0));
    }
    let t0 = skip_ws_exec(s, n, r1);
    let t1 = scan_ident_exec(s, n, t0);
    let logical: LogicalType;
    if keyword_at(s, n, t0, t1, "int32") {
        logical = LogicalType::Int32;
    } else if keyword_at(s, n, t0, t1, "byte_array") {
        logical = LogicalType::Utf8String;
    } else {
        return Err(SchemaError::UnknownType { position: t0 });
    }
    let n0 = skip_ws_exec(s, n, t1);
    let n1 = scan_ident_exec(s, n, n0);
    if !(n0 < n1 && is_ident_start_exec(s.get_char(n0))) {
        return Err(expect_err(n, n0));
    }
    let name = String::from_str(s.substring_char(n0, n1));
    let def = ColumnDef { name, logical_type: logical, required };
    let a0 = skip_ws_exec(s, n, n1);
    if a0 < n && s.get_char(a0) == '(' {
        if !matches!(logical, LogicalType::Utf8String) {
            return Err(SchemaError::UnexpectedToken { position: a0 });
        }
        let u0 = skip_ws_exec(s, n, a0 + 1);
        let u1 = scan_ident_exec(s, n, u0);
        if !keyword_at(s, n, u0, u1, "utf8") {
            return Err(expect_err(n, u0));
        }
        let c0 = skip_ws_exec(s, n, u1);
        if !(c0 < n && s.get_char(c0) == ')') {
            return Err(expect_err(n, c0));
        }
        let e0 = skip_ws_exec(s, n, c0 + 1);
        if !(e0 < n && s.get_char(e0) == ';') {
            return Err(expect_err(n, e0));
        }
        Ok((def, e0 + 1))
    } else {
        if a0 < n && s.get_char(a0) == ';' {
            Ok((def, a0 + 1))
        } else {
            Err(expect_err(n, a0))
        }
    }
}

/// Compile a textual column-schema description into an ordered list of
/// column definitions. Compilation is total: malformed text yields a
/// `SchemaError`, never a fault, and nothing outside `text` is consulted.
pub fn compile(text: &str) -> (r: Result<Schema, SchemaError>)
    ensures
        match r {
            Ok(sch) => parse_schema(text@) == Some(sch@) && sch.spec_source() == text@,
            Err(e) => parse_schema(text@) is None && e == parse_schema_err(text@),
        },
{
    let n = text.unicode_len();
    let m0 = skip_ws_exec(text, n, 0);
    let m1 = scan_ident_exec(text, n, m0);
    if !keyword_at(text, n, m0, m1, "message") {
        return Err(expect_err(n, m0));
    }
    let n0 = skip_ws_exec(text, n, m1);
    let n1 = scan_ident_exec(text, n, n0);
    if !(n0 < n1 && is_ident_start_exec(text.get_char(n0))) {
        return Err(expect_err(n, n0));
    }
    let b0 = skip_ws_exec(text, n, n1);
    if !(b0 < n && text.get_char(b0) == '{') {
        return Err(expect_err(n, b0));
    }
    let mut defs: Vec<ColumnDef> = Vec::new();
    let mut cur = b0 + 1;
    proof {
        assert(defs.deep_view() =~= Seq::<ColumnDefV>::empty());
        if let Some((ds, e)) = parse_fields(text@, b0 as int + 1) {
            assert(defs.deep_view() + ds =~= ds);
        }
    }
    loop
        invariant
            b0 + 1 <= cur <= n,
            b0 < n,
            n == text@.len(),
            skip_ws(text@, 0) == m0 as int,
            scan_ident(text@, m0 as int) == m1 as int,
            text@.subrange(m0 as int, m1 as int) == "message"@,
            skip_ws(text@, m1 as int) == n0 as int,
            scan_ident(text@, n0 as int) == n1 as int,
            n0 < n1 && is_ident_start_char(text@[n0 as int]),
            skip_ws(text@, n1 as int) == b0 as int,
            text@[b0 as int] == '{',
            match parse_fields(text@, cur as int) {
                None => parse_fields(text@, b0 as int + 1) is None,
                Some((ds, e)) => parse_fields(text@, b0 as int + 1) == Some(
                    (defs.deep_view() + ds, e),
                ),
            },
            parse_fields(text@, cur as int) is None ==> parse_fields_err(text@, b0 as int + 1)
                == parse_fields_err(text@, cur as int),
        decreases n - cur,
    {
        let j = skip_ws_exec(text, n, cur);
        if j < n && text.get_char(j) == '}' {
            proof {
                assert(parse_fields(text@, cur as int) == Some(
                    (Seq::<ColumnDefV>::empty(), j as int + 1),
                ));
                assert(defs.deep_view() + Seq::<ColumnDefV>::empty() =~= defs.deep_view());
            }
            let e0 = skip_ws_exec(text, n, j + 1);
            if e0 != n {
                return Err(SchemaError::UnexpectedToken { position: e0 });
            }
            let source = String::from_str(text);
            return Ok(Schema { source, defs });
        }
        let ghost old_defs = defs.deep_view();
        match parse_field_exec(text, n, cur) {
            Err(e) => {
                proof {
                    assert(parse_fields(text@, cur as int) is None);
                }
                return Err(e);
            },
            Ok((d, k)) => {
                proof {
                    assert(parse_fields(text@, cur as int) == match parse_fields(text@, k as int) {
                        None => None::<(Seq<ColumnDefV>, int)>,
                        Some((ds, e)) => Some((seq![d@] + ds, e)),
                    });
                }
                defs.push(d);
                proof {
                    assert(defs.deep_view() =~= old_defs.push(d@));
                    if let Some((ds, e)) = parse_fields(text@, k as int) {
                        assert(old_defs + (seq![d@] + ds) =~= defs.deep_view() + ds);
                    }
                }
                cur = k;
            },
        }
    }
}

/// An ordered, compiled schema. Only `compile` produces one, so the stored
/// source text always parses back to the stored column definitions.
#[derive(Debug)]
pub struct Schema {
    source: String,
    defs: Vec<ColumnDef>,
}

impl View for Schema {
    type V = Seq<ColumnDefV>;

    closed spec fn view(&self) -> Seq<ColumnDefV> {
        self.defs.deep_view()
    }
}

impl Schema {
    /// The schema text this value was compiled from.
    pub closed spec fn spec_source(&self) -> Seq<char> {
        self.source@
    }

    #[verifier::type_invariant]
    pub closed spec fn wf(&self) -> bool {
        parse_schema(self.source@) == Some(self.defs.deep_view())
    }

    /// The schema text this value was compiled from; it always parses back
    /// to the stored column definitions.
    pub fn source_str(&self) -> (r: &str)
        ensures
            r@ == self.spec_source(),
            parse_schema(r@) == Some(self@),
    {
        proof {
            use_type_invariant(self);
        }
        self.source.as_str()
    }

    /// How many columns the schema declares.
    pub fn len(&self) -> (r: usize)
        ensures
            r == self@.len(),
    {
        self.defs.len()
    }

    /// The column definition at position `i`.
    pub fn column(&self, i: usize) -> (r: &ColumnDef)
        requires
            i < self@.len(),
        ensures
            r@ == self@[i as int],
    {
        &self.defs[i]
    }
}

} // verus!
