use vstd::prelude::*;

verus! {

/// The primitive logical types a column may carry.
#[derive(Clone, Copy, PartialEq, Eq, Structural, Debug)]
pub enum LogicalType {
    Int32,
    Utf8String,
}

/// Mathematical model of one column: the ordered values it holds.
pub enum ColumnV {
    Integer(Seq<i32>),
    Varchar(Seq<Seq<char>>),
}

impl ColumnV {
    /// The logical type of this column's variant.
    pub open spec fn typ(self) -> LogicalType {
        match self {
            ColumnV::Integer(_) => LogicalType::Int32,
            ColumnV::Varchar(_) => LogicalType::Utf8String,
        }
    }

    /// The number of rows this column holds.
    pub open spec fn rows(self) -> nat {
        match self {
            ColumnV::Integer(s) => s.len(),
            ColumnV::Varchar(s) => s.len(),
        }
    }
}

/// One table column: a homogeneous ordered sequence of primitive values.
#[derive(Debug, Clone)]
pub enum Column {
    Integer(Vec<i32>),
    Varchar(Vec<String>),
}

impl View for Column {
    type V = ColumnV;

    open spec fn view(&self) -> ColumnV {
        match self {
            Column::Integer(v) => ColumnV::Integer(v@),
            Column::Varchar(v) => ColumnV::Varchar(v.deep_view()),
        }
    }
}

impl DeepView for Column {
    type V = ColumnV;

    open spec fn deep_view(&self) -> ColumnV {
        self.view()
    }
}

impl Column {
    /// The logical type this column's variant carries.
    pub fn logical_type(&self) -> (r: LogicalType)
        ensures
            r == self@.typ(),
    {
        match self {
            Column::Integer(_) => LogicalType::Int32,
            Column::Varchar(_) => LogicalType::Utf8String,
        }
    }

    /// The number of rows this column holds.
    pub fn row_count(&self) -> (r: usize)
        ensures
            r == self@.rows(),
    {
        match self {
            Column::Integer(v) => v.len(),
            Column::Varchar(v) => v.len(),
        }
    }
}

} // verus!
