//! The data model: logical column types, schemas, values and parsed statements.

use vstd::prelude::*;

verus! {

/// The logical type of a column.
#[derive(Clone, Copy, Debug, PartialEq, Eq, Structural)]
pub enum ColumnType {
    /// VARCHAR, TEXT, CHAR, ENUM, LONGTEXT, MEDIUMTEXT
    String,
    /// every integer width, and the NUMERIC and DECIMAL families
    Integer,
    /// FLOAT, REAL, DOUBLE
    Float,
    /// DATE, TIME, DATETIME, TIMESTAMP
    Timestamp,
    /// BOOL, BOOLEAN
    Boolean,
}

/// One column of a table: its name, whether it admits NULL, and its logical type.
#[derive(Debug, PartialEq, Eq)]
pub struct ColumnDef {
    pub column_name: String,
    pub nullable: bool,
    pub column_type: ColumnType,
}

/// What a `ColumnDef` stands for.
pub struct ColumnSpec {
    pub name: Seq<char>,
    pub nullable: bool,
    pub column_type: ColumnType,
}

impl View for ColumnDef {
    type V = ColumnSpec;

    open spec fn view(&self) -> ColumnSpec {
        ColumnSpec {
            name: self.column_name@,
            nullable: self.nullable,
            column_type: self.column_type,
        }
    }
}

impl Clone for ColumnDef {
    fn clone(&self) -> (out: Self)
        ensures
            out@ == self@,
    {
        ColumnDef {
            column_name: self.column_name.clone(),
            nullable: self.nullable,
            column_type: self.column_type,
        }
    }
}

/// The columns of a table, in declaration order. Row tuples are positional.
#[derive(Debug, PartialEq, Eq)]
pub struct Schema(pub Vec<ColumnDef>);

impl View for Schema {
    type V = Seq<ColumnSpec>;

    open spec fn view(&self) -> Seq<ColumnSpec> {
        self.0@.map_values(|c: ColumnDef| c@)
    }
}

impl Schema {
    /// The column names, in declaration order.
    pub open spec fn names(self) -> Seq<Seq<char>> {
        self@.map_values(|c: ColumnSpec| c.name)
    }

    /// The names of the columns, in declaration order.
    pub fn column_names(&self) -> (out: Vec<String>)
        ensures
            out@.map_values(|s: String| s@) == self.names(),
    {
        let mut out: Vec<String> = Vec::new();
        let mut i: usize = 0;
        while i < self.0.len()
            invariant
                i <= self.0.len(),
                out@.len() == i,
                forall|k: int| 0 <= k < i ==> out@[k]@ == self.0@[k].column_name@,
            decreases self.0.len() - i,
        {
            out.push(self.0[i].column_name.clone());
            i += 1;
        }
        assert(out@.map_values(|s: String| s@) =~= self.names());
        out
    }
}

impl Clone for Schema {
    fn clone(&self) -> (out: Self)
        ensures
            out@ == self@,
    {
        let mut columns: Vec<ColumnDef> = Vec::new();
        let mut i: usize = 0;
        while i < self.0.len()
            invariant
                i <= self.0.len(),
                columns@.len() == i,
                forall|k: int| 0 <= k < i ==> columns@[k]@ == self.0@[k]@,
            decreases self.0.len() - i,
        {
            columns.push(self.0[i].clone());
            i += 1;
        }
        assert(columns@.map_values(|c: ColumnDef| c@) =~= self@);
        Schema(columns)
    }
}

/// One value of a row.
#[derive(Debug, PartialEq, Eq)]
pub enum ColumnValue {
    String(String),
    /// INTEGER, BIGINT
    Integer(i64),
    /// a number written with a decimal point: the literal itself, sign included
    Float(String),
    /// BOOLEAN
    Boolean(bool),
    Null,
}

/// What a `ColumnValue` stands for.
pub enum ValueSpec {
    Text(Seq<char>),
    Integer(i64),
    Float(Seq<char>),
    Boolean(bool),
    Null,
}

impl View for ColumnValue {
    type V = ValueSpec;

    open spec fn view(&self) -> ValueSpec {
        match self {
            ColumnValue::String(text) => ValueSpec::Text(text@),
            ColumnValue::Integer(v) => ValueSpec::Integer(*v),
            ColumnValue::Float(text) => ValueSpec::Float(text@),
            ColumnValue::Boolean(flag) => ValueSpec::Boolean(*flag),
            ColumnValue::Null => ValueSpec::Null,
        }
    }
}

impl Clone for ColumnValue {
    fn clone(&self) -> (out: Self)
        ensures
            out@ == self@,
    {
        match self {
            ColumnValue::String(text) => ColumnValue::String(text.clone()),
            ColumnValue::Integer(v) => ColumnValue::Integer(*v),
            ColumnValue::Float(text) => ColumnValue::Float(text.clone()),
            ColumnValue::Boolean(flag) => ColumnValue::Boolean(*flag),
            ColumnValue::Null => ColumnValue::Null,
        }
    }
}

/// What a row of values stands for.
pub open spec fn row_view(row: Vec<ColumnValue>) -> Seq<ValueSpec> {
    row@.map_values(|v: ColumnValue| v@)
}

/// What a batch of rows stands for.
pub open spec fn rows_view(rows: Vec<Vec<ColumnValue>>) -> Seq<Seq<ValueSpec>> {
    rows@.map_values(|row: Vec<ColumnValue>| row_view(row))
}

/// One parsed statement.
#[derive(Debug, PartialEq, Eq)]
pub enum Line {
    /// a table definition: the table's name and its columns
    CreateTable(String, Schema),
    /// rows for the named table; each row follows the order of the schema
    InsertInto(String, Vec<Vec<ColumnValue>>),
    /// no operation line: anything else!
    NOP,
}

/// What a `Line` stands for.
pub enum LineSpec {
    CreateTable(Seq<char>, Seq<ColumnSpec>),
    InsertInto(Seq<char>, Seq<Seq<ValueSpec>>),
    NOP,
}

impl View for Line {
    type V = LineSpec;

    open spec fn view(&self) -> LineSpec {
        match self {
            Line::CreateTable(name, schema) => LineSpec::CreateTable(name@, schema@),
            Line::InsertInto(name, rows) => LineSpec::InsertInto(name@, rows_view(*rows)),
            Line::NOP => LineSpec::NOP,
        }
    }
}

} // verus!
