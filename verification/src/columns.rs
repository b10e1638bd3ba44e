//! Typed columns: what a value becomes in a column of a given logical type.

use vstd::prelude::*;
use crate::schema::{ColumnType, ColumnValue, ValueSpec};
use crate::timestamp::{parse_timestamp, timestamp_of, TimestampError};

verus! {

/// A cell of a FLOAT column. The float itself is made where the column is
/// encoded: from the literal's text, or by widening the integer.
#[derive(Debug, PartialEq, Eq)]
pub enum FloatCell {
    /// a number written with a decimal point: the literal, sign included
    Literal(String),
    /// an integer that stands in a FLOAT column
    Widened(i64),
}

/// A column of one logical type, one cell per row. `None` is a null cell.
#[derive(Debug, PartialEq, Eq)]
pub enum Column {
    String(Vec<Option<String>>),
    Integer(Vec<Option<i64>>),
    Float(Vec<Option<FloatCell>>),
    /// seconds since the epoch, in UTC
    Timestamp(Vec<Option<i64>>),
    Boolean(Vec<Option<bool>>),
}

/// What a cell of a column stands for.
pub enum CellSpec {
    Null,
    Text(Seq<char>),
    Integer(i64),
    /// a float given by its literal
    Float(Seq<char>),
    /// a float given by the integer it is widened from
    Widened(i64),
    /// seconds since the epoch, in UTC
    Timestamp(i64),
    Boolean(bool),
}

/// Why a value cannot stand in a column.
#[derive(Clone, Copy, Debug, PartialEq, Eq, Structural)]
pub enum CellError {
    /// the value's tag is not one that the column's type accepts
    WrongType,
    /// the text in a TIMESTAMP column does not follow the fixed-width pattern
    BadTimestamp,
    /// the text in a TIMESTAMP column names a time that does not exist
    NoSuchTime,
}

pub open spec fn text_cell(cell: Option<String>) -> CellSpec {
    match cell {
        Some(text) => CellSpec::Text(text@),
        None => CellSpec::Null,
    }
}

pub open spec fn integer_cell(cell: Option<i64>) -> CellSpec {
    match cell {
        Some(v) => CellSpec::Integer(v),
        None => CellSpec::Null,
    }
}

pub open spec fn float_cell(cell: Option<FloatCell>) -> CellSpec {
    match cell {
        Some(FloatCell::Literal(text)) => CellSpec::Float(text@),
        Some(FloatCell::Widened(v)) => CellSpec::Widened(v),
        None => CellSpec::Null,
    }
}

pub open spec fn timestamp_cell(cell: Option<i64>) -> CellSpec {
    match cell {
        Some(seconds) => CellSpec::Timestamp(seconds),
        None => CellSpec::Null,
    }
}

pub open spec fn boolean_cell(cell: Option<bool>) -> CellSpec {
    match cell {
        Some(flag) => CellSpec::Boolean(flag),
        None => CellSpec::Null,
    }
}

impl Column {
    /// The logical type of the column.
    pub open spec fn column_type(self) -> ColumnType {
        match self {
            Column::String(_) => ColumnType::String,
            Column::Integer(_) => ColumnType::Integer,
            Column::Float(_) => ColumnType::Float,
            Column::Timestamp(_) => ColumnType::Timestamp,
            Column::Boolean(_) => ColumnType::Boolean,
        }
    }

    /// The cells of the column, first row first.
    pub open spec fn cells(self) -> Seq<CellSpec> {
        match self {
            Column::String(cells) => cells@.map_values(|c: Option<String>| text_cell(c)),
            Column::Integer(cells) => cells@.map_values(|c: Option<i64>| integer_cell(c)),
            Column::Float(cells) => cells@.map_values(|c: Option<FloatCell>| float_cell(c)),
            Column::Timestamp(cells) => cells@.map_values(|c: Option<i64>| timestamp_cell(c)),
            Column::Boolean(cells) => cells@.map_values(|c: Option<bool>| boolean_cell(c)),
        }
    }

    /// An empty column of the given type, with room for `capacity` cells.
    pub fn with_capacity(column_type: ColumnType, capacity: usize) -> (column: Column)
        ensures
            column.column_type() == column_type,
            column.cells() == Seq::<CellSpec>::empty(),
    {
        let column = match column_type {
            ColumnType::String => Column::String(Vec::with_capacity(capacity)),
            ColumnType::Integer => Column::Integer(Vec::with_capacity(capacity)),
            ColumnType::Float => Column::Float(Vec::with_capacity(capacity)),
            ColumnType::Timestamp => Column::Timestamp(Vec::with_capacity(capacity)),
            ColumnType::Boolean => Column::Boolean(Vec::with_capacity(capacity)),
        };
        assert(column.cells() =~= Seq::<CellSpec>::empty());
        column
    }

    /// The number of cells.
    pub fn len(&self) -> (n: usize)
        ensures
            n == self.cells().len(),
    {
        match self {
            Column::String(cells) => cells.len(),
            Column::Integer(cells) => cells.len(),
            Column::Float(cells) => cells.len(),
            Column::Timestamp(cells) => cells.len(),
            Column::Boolean(cells) => cells.len(),
        }
    }

    /// Appends the cell that `value` becomes in this column, or says why it
    /// cannot stand there and leaves the column as it was.
    pub fn append(&mut self, value: ColumnValue) -> (res: Result<(), CellError>)
        ensures
            final(self).column_type() == old(self).column_type(),
            match coerce(old(self).column_type(), value@) {
                Ok(cell) => res is Ok && final(self).cells() == old(self).cells().push(cell),
                Err(e) => res == Err::<(), CellError>(e) && final(self).cells() == old(self).cells(),
            },
    {
        match self {
            Column::String(cells) => match value {
                ColumnValue::String(text) => {
                    cells.push(Some(text));
                    assert(cells@.map_values(|c: Option<String>| text_cell(c)) =~= old(
                        self,
                    ).cells().push(CellSpec::Text(text@)));
                    Ok(())
                },
                ColumnValue::Null => {
                    cells.push(None);
                    assert(cells@.map_values(|c: Option<String>| text_cell(c)) =~= old(
                        self,
                    ).cells().push(CellSpec::Null));
                    Ok(())
                },
                _ => Err(CellError::WrongType),
            },
            Column::Integer(cells) => match value {
                ColumnValue::Integer(v) => {
                    cells.push(Some(v));
                    assert(cells@.map_values(|c: Option<i64>| integer_cell(c)) =~= old(
                        self,
                    ).cells().push(CellSpec::Integer(v)));
                    Ok(())
                },
                ColumnValue::Null => {
                    cells.push(None);
                    assert(cells@.map_values(|c: Option<i64>| integer_cell(c)) =~= old(
                        self,
                    ).cells().push(CellSpec::Null));
                    Ok(())
                },
                _ => Err(CellError::WrongType),
            },
            Column::Float(cells) => match value {
                ColumnValue::Float(text) => {
                    cells.push(Some(FloatCell::Literal(text)));
                    assert(cells@.map_values(|c: Option<FloatCell>| float_cell(c)) =~= old(
                        self,
                    ).cells().push(CellSpec::Float(text@)));
                    Ok(())
                },
                ColumnValue::Integer(v) => {
                    cells.push(Some(FloatCell::Widened(v)));
                    assert(cells@.map_values(|c: Option<FloatCell>| float_cell(c)) =~= old(
                        self,
                    ).cells().push(CellSpec::Widened(v)));
                    Ok(())
                },
                ColumnValue::Null => {
                    cells.push(None);
                    assert(cells@.map_values(|c: Option<FloatCell>| float_cell(c)) =~= old(
                        self,
                    ).cells().push(CellSpec::Null));
                    Ok(())
                },
                _ => Err(CellError::WrongType),
            },
            Column::Timestamp(cells) => match value {
                ColumnValue::String(text) => match parse_timestamp(text.as_str()) {
                    Ok(seconds) => {
                        cells.push(Some(seconds));
                        assert(cells@.map_values(|c: Option<i64>| timestamp_cell(c)) =~= old(
                            self,
                        ).cells().push(CellSpec::Timestamp(seconds)));
                        Ok(())
                    },
                    Err(TimestampError::Malformed) => Err(CellError::BadTimestamp),
                    Err(TimestampError::NoSuchTime) => Err(CellError::NoSuchTime),
                },
                ColumnValue::Null => {
                    cells.push(None);
                    assert(cells@.map_values(|c: Option<i64>| timestamp_cell(c)) =~= old(
                        self,
                    ).cells().push(CellSpec::Null));
                    Ok(())
                },
                _ => Err(CellError::WrongType),
            },
            Column::Boolean(cells) => match value {
                ColumnValue::Boolean(flag) => {
                    cells.push(Some(flag));
                    assert(cells@.map_values(|c: Option<bool>| boolean_cell(c)) =~= old(
                        self,
                    ).cells().push(CellSpec::Boolean(flag)));
                    Ok(())
                },
                ColumnValue::Null => {
                    cells.push(None);
                    assert(cells@.map_values(|c: Option<bool>| boolean_cell(c)) =~= old(
                        self,
                    ).cells().push(CellSpec::Null));
                    Ok(())
                },
                _ => Err(CellError::WrongType),
            },
        }
    }
}

/// The cell that a value becomes in a column of the given type. NULL stands in
/// every column. A STRING, INTEGER or BOOLEAN column takes values of its own tag.
/// A FLOAT column takes floats and widens integers. A TIMESTAMP column takes text
/// and reads it as a timestamp.
pub open spec fn coerce(column_type: ColumnType, value: ValueSpec) -> Result<CellSpec, CellError> {
    match (column_type, value) {
        (_, ValueSpec::Null) => Ok(CellSpec::Null),
        (ColumnType::String, ValueSpec::Text(text)) => Ok(CellSpec::Text(text)),
        (ColumnType::Integer, ValueSpec::Integer(v)) => Ok(CellSpec::Integer(v)),
        (ColumnType::Float, ValueSpec::Float(text)) => Ok(CellSpec::Float(text)),
        (ColumnType::Float, ValueSpec::Integer(v)) => Ok(CellSpec::Widened(v)),
        (ColumnType::Boolean, ValueSpec::Boolean(flag)) => Ok(CellSpec::Boolean(flag)),
        (ColumnType::Timestamp, ValueSpec::Text(text)) => match timestamp_of(text) {
            Ok(seconds) => Ok(CellSpec::Timestamp(seconds)),
            Err(TimestampError::Malformed) => Err(CellError::BadTimestamp),
            Err(TimestampError::NoSuchTime) => Err(CellError::NoSuchTime),
        },
        _ => Err(CellError::WrongType),
    }
}

/// Which tags a column accepts: NULL always; beyond that a STRING column text, an
/// INTEGER column integers, a FLOAT column floats and integers, a BOOLEAN column
/// booleans, a TIMESTAMP column text. A value of an accepted tag is taken as it is,
/// but for the text in a TIMESTAMP column, which has to be a timestamp.
pub proof fn lemma_accepted_tags(column_type: ColumnType, value: ValueSpec)
    ensures
        coerce(column_type, value) != Err::<CellSpec, CellError>(CellError::WrongType) <==> (value is Null
            || (column_type is String && value is Text) || (column_type is Integer
            && value is Integer) || (column_type is Float && (value is Float || value is Integer))
            || (column_type is Boolean && value is Boolean) || (column_type is Timestamp
            && value is Text)),
        !(column_type is Timestamp && value is Text) ==> (coerce(column_type, value) is Ok
            || coerce(column_type, value) == Err::<CellSpec, CellError>(CellError::WrongType)),
        column_type is Float && value is Integer ==> coerce(column_type, value) == Ok::<
            CellSpec,
            CellError,
        >(CellSpec::Widened(value->Integer_0)),
{
}

} // verus!
