//! The statement parser: one statement in, one `Line` out.

use vstd::prelude::*;
use crate::number::{check_float_literal, integer_literal, is_float_literal, is_negative, negated_literal, parse_integer, without_sign};
use crate::schema::{ColumnDef, ColumnSpec, ColumnType, ColumnValue, Line, LineSpec, Schema, ValueSpec, row_view, rows_view};
use crate::sql::{ColumnConstraint, DeclaredColumn, DeclaredType, StatementKind, ValueExpr};
use crate::sql::{columns_of, custom_type_of, declared_type_of, kind_of, parsed_statements, rows_of, table_of, value_expr_of};
use crate::sql::{approximate_or_temporal_type, character_or_exact_type, signed_integer_type, unsigned_or_boolean_type};
use crate::sql::{column_constraints, column_names, column_types, custom_type_name, inserted_rows, parse_sql, statement_kind, table_name, value_expr};
use crate::guard::{parser_returns, safe_tokens, tokens_are_safe};
use crate::sql::{error_message, tokenize, tokens_of};
use crate::text::{chars_of, has_char, same_text, string_of};
use sqlparser::ast::{DataType, Expr, Statement};

verus! {

/// Why a statement could not be turned into a `Line`.
#[derive(Clone, Copy, Debug, PartialEq, Eq, Structural)]
pub enum ParseError {
    /// the grammar rejects the text
    Syntax,
    /// the text is not handed to the grammar, which does not return on it: a
    /// number stands where the grammar cannot take it, or the text is nested too
    /// deeply
    Refused,
    /// the text holds more than one statement
    TooManyStatements,
    /// the statement names no table
    MissingTableName,
    /// the type of the column at this position has no logical type
    UnsupportedType { column: usize },
    /// the insert takes its rows from something other than a `VALUES` list
    NotValues,
    /// the value at this position is no literal
    UnsupportedValue { row: usize, column: usize },
    /// the numeric literal at this position does not denote a number in range
    BadNumber { row: usize, column: usize },
}

/// The logical type of a declared type. `custom` is the name of a custom type.
/// `tinyint(1)` is an integer like any other `TINYINT`, and the precision of the
/// `NUMERIC` and `DECIMAL` families is dropped.
pub open spec fn logical_type(declared: DeclaredType, custom: Seq<Seq<char>>) -> Option<ColumnType> {
    match declared {
        DeclaredType::Varchar | DeclaredType::Char | DeclaredType::Text | DeclaredType::String
        | DeclaredType::Enum => Some(ColumnType::String),
        DeclaredType::Custom => if custom.len() > 0 && (custom[0] == "longtext"@ || custom[0]
            == "mediumtext"@) {
            Some(ColumnType::String)
        } else {
            None
        },
        DeclaredType::Numeric | DeclaredType::Decimal | DeclaredType::BigNumeric
        | DeclaredType::BigDecimal | DeclaredType::Dec => Some(ColumnType::Integer),
        DeclaredType::TinyInt | DeclaredType::Int2 | DeclaredType::SmallInt
        | DeclaredType::MediumInt | DeclaredType::Int | DeclaredType::Int4 | DeclaredType::Int64
        | DeclaredType::Integer | DeclaredType::BigInt | DeclaredType::Int8 => Some(
            ColumnType::Integer,
        ),
        DeclaredType::UnsignedTinyInt | DeclaredType::UnsignedInt2
        | DeclaredType::UnsignedSmallInt | DeclaredType::UnsignedMediumInt
        | DeclaredType::UnsignedInt | DeclaredType::UnsignedInt4 | DeclaredType::UnsignedInteger
        | DeclaredType::UnsignedBigInt | DeclaredType::UnsignedInt8 => Some(ColumnType::Integer),
        DeclaredType::Bool | DeclaredType::Boolean => Some(ColumnType::Boolean),
        DeclaredType::Float | DeclaredType::Float4 | DeclaredType::Float64 | DeclaredType::Real
        | DeclaredType::Float8 | DeclaredType::Double | DeclaredType::DoublePrecision => Some(
            ColumnType::Float,
        ),
        DeclaredType::Date | DeclaredType::Time | DeclaredType::Datetime
        | DeclaredType::Timestamp => Some(ColumnType::Timestamp),
        DeclaredType::Other => None,
    }
}

/// What the parts of a name stand for.
pub open spec fn parts_view(parts: Vec<String>) -> Seq<Seq<char>> {
    parts@.map_values(|part: String| part@)
}

/// The logical type of a declared type, or `None` where it has none.
pub fn column_type_for(declared: DeclaredType, custom: &Vec<String>) -> (res: Option<ColumnType>)
    ensures
        res == logical_type(declared, parts_view(*custom)),
{
    match declared {
        DeclaredType::Varchar | DeclaredType::Char | DeclaredType::Text | DeclaredType::String
        | DeclaredType::Enum => Some(ColumnType::String),
        DeclaredType::Custom => {
            if custom.len() == 0 {
                return None;
            }
            assert(parts_view(*custom)[0] == custom@[0]@);
            let name = custom[0].as_str();
            if same_text(name, "longtext") || same_text(name, "mediumtext") {
                Some(ColumnType::String)
            } else {
                None
            }
        },
        DeclaredType::Numeric | DeclaredType::Decimal | DeclaredType::BigNumeric
        | DeclaredType::BigDecimal | DeclaredType::Dec => Some(ColumnType::Integer),
        DeclaredType::TinyInt | DeclaredType::Int2 | DeclaredType::SmallInt
        | DeclaredType::MediumInt | DeclaredType::Int | DeclaredType::Int4 | DeclaredType::Int64
        | DeclaredType::Integer | DeclaredType::BigInt | DeclaredType::Int8 => Some(
            ColumnType::Integer,
        ),
        DeclaredType::UnsignedTinyInt | DeclaredType::UnsignedInt2
        | DeclaredType::UnsignedSmallInt | DeclaredType::UnsignedMediumInt
        | DeclaredType::UnsignedInt | DeclaredType::UnsignedInt4 | DeclaredType::UnsignedInteger
        | DeclaredType::UnsignedBigInt | DeclaredType::UnsignedInt8 => Some(ColumnType::Integer),
        DeclaredType::Bool | DeclaredType::Boolean => Some(ColumnType::Boolean),
        DeclaredType::Float | DeclaredType::Float4 | DeclaredType::Float64 | DeclaredType::Real
        | DeclaredType::Float8 | DeclaredType::Double | DeclaredType::DoublePrecision => Some(
            ColumnType::Float,
        ),
        DeclaredType::Date | DeclaredType::Time | DeclaredType::Datetime
        | DeclaredType::Timestamp => Some(ColumnType::Timestamp),
        DeclaredType::Other => None,
    }
}

/// Whether a column with these options admits NULL. The first option that is
/// `NULL`, `NOT NULL` or `PRIMARY KEY` decides; a column with none of them does.
pub open spec fn nullable_of(options: Seq<ColumnConstraint>) -> bool
    decreases options.len(),
{
    if options.len() == 0 {
        true
    } else {
        match options[0] {
            ColumnConstraint::Null => true,
            ColumnConstraint::NotNull => false,
            ColumnConstraint::Unique { is_primary: true } => false,
            _ => nullable_of(options.drop_first()),
        }
    }
}

/// Whether a column with these options admits NULL.
pub fn nullability(options: &Vec<ColumnConstraint>) -> (nullable: bool)
    ensures
        nullable == nullable_of(options@),
{
    let mut i: usize = 0;
    assert(options@.skip(0) =~= options@);
    while i < options.len()
        invariant
            i <= options.len(),
            nullable_of(options@) == nullable_of(options@.skip(i as int)),
        decreases options.len() - i,
    {
        assert(options@.skip(i as int).drop_first() =~= options@.skip(i + 1));
        assert(options@.skip(i as int)[0] == options@[i as int]);
        match options[i] {
            ColumnConstraint::Null => {
                return true;
            },
            ColumnConstraint::NotNull => {
                return false;
            },
            ColumnConstraint::Unique { is_primary } => {
                if is_primary {
                    return false;
                }
            },
            ColumnConstraint::Other => {},
        }
        i += 1;
    }
    true
}

/// Why a value expression gives no value.
#[derive(Clone, Copy, Debug, PartialEq, Eq, Structural)]
pub enum ValueError {
    /// the expression is no literal
    Unsupported,
    /// the numeric literal does not denote a number in range
    BadNumber,
}

/// The value of a numeric literal, with the sign of a unary minus folded in. A
/// literal with a decimal point is a float and keeps its text; one without is an
/// integer. `None` where the literal is malformed or the integer out of range.
pub open spec fn number_value(text: Seq<char>, negated: bool) -> Option<ValueSpec> {
    if text.contains('.') {
        if is_float_literal(text) {
            Some(
                ValueSpec::Float(
                    if negated {
                        negated_literal(text)
                    } else {
                        text
                    },
                ),
            )
        } else {
            None
        }
    } else {
        match integer_literal(text) {
            Some(v) => if !negated {
                Some(ValueSpec::Integer(v))
            } else if v == i64::MIN {
                None
            } else {
                Some(ValueSpec::Integer((-v) as i64))
            },
            None => None,
        }
    }
}

/// The value that a value expression stands for.
pub open spec fn value_of(expr: ValueExpr) -> Result<ValueSpec, ValueError> {
    match expr {
        ValueExpr::Number(text) => match number_value(text@, false) {
            Some(v) => Ok(v),
            None => Err(ValueError::BadNumber),
        },
        ValueExpr::NegatedNumber(text) => match number_value(text@, true) {
            Some(v) => Ok(v),
            None => Err(ValueError::BadNumber),
        },
        ValueExpr::SingleQuoted(text) => Ok(ValueSpec::Text(text@)),
        ValueExpr::Boolean(flag) => Ok(ValueSpec::Boolean(flag)),
        ValueExpr::Null => Ok(ValueSpec::Null),
        ValueExpr::Unsupported => Err(ValueError::Unsupported),
    }
}

/// The text of the literal `chars` with its sign turned.
fn negate_literal(chars: &Vec<char>) -> (out: String)
    ensures
        out@ == negated_literal(chars@),
{
    let len = chars.len();
    let mut out = String::new();
    let start: usize = if len > 0 && (chars[0] == '+' || chars[0] == '-') {
        1
    } else {
        0
    };
    if !(len > 0 && chars[0] == '-') {
        out.push('-');
    }
    let ghost prefix = out@;
    let mut i: usize = start;
    while i < len
        invariant
            start <= i <= len,
            len == chars.len(),
            out@ == prefix + chars@.subrange(start as int, i as int),
        decreases len - i,
    {
        out.push(chars[i]);
        assert(chars@.subrange(start as int, i + 1) =~= chars@.subrange(start as int, i as int).push(
            chars@[i as int],
        ));
        i += 1;
    }
    assert(chars@.subrange(start as int, len as int) =~= without_sign(chars@));
    assert(out@ =~= negated_literal(chars@));
    out
}

/// The value of the numeric literal `text`; `negated` says that a unary minus
/// stands before it.
pub fn parse_number(text: &str, negated: bool) -> (res: Option<ColumnValue>)
    ensures
        match res {
            Some(v) => number_value(text@, negated) == Some(v@),
            None => number_value(text@, negated) is None,
        },
{
    let chars = chars_of(text);
    if has_char(&chars, '.') {
        if !check_float_literal(&chars) {
            return None;
        }
        if negated {
            Some(ColumnValue::Float(negate_literal(&chars)))
        } else {
            Some(ColumnValue::Float(string_of(&chars)))
        }
    } else {
        match parse_integer(&chars) {
            None => None,
            Some(v) => {
                if !negated {
                    Some(ColumnValue::Integer(v))
                } else if v == i64::MIN {
                    None
                } else {
                    Some(ColumnValue::Integer(-v))
                }
            },
        }
    }
}

/// The value that a value expression stands for.
pub fn column_value(expr: ValueExpr) -> (res: Result<ColumnValue, ValueError>)
    ensures
        match res {
            Ok(v) => value_of(expr) == Ok::<ValueSpec, ValueError>(v@),
            Err(e) => value_of(expr) == Err::<ValueSpec, ValueError>(e),
        },
{
    match expr {
        ValueExpr::Number(text) => match parse_number(text.as_str(), false) {
            Some(v) => Ok(v),
            None => Err(ValueError::BadNumber),
        },
        ValueExpr::NegatedNumber(text) => match parse_number(text.as_str(), true) {
            Some(v) => Ok(v),
            None => Err(ValueError::BadNumber),
        },
        ValueExpr::SingleQuoted(text) => Ok(ColumnValue::String(text)),
        ValueExpr::Boolean(flag) => Ok(ColumnValue::Boolean(flag)),
        ValueExpr::Null => Ok(ColumnValue::Null),
        ValueExpr::Unsupported => Err(ValueError::Unsupported),
    }
}

/// Which declared type `data_type` is.
pub fn declared_type(data_type: &DataType) -> (declared: DeclaredType)
    ensures
        declared == declared_type_of(*data_type),
{
    let character = character_or_exact_type(data_type);
    if character != DeclaredType::Other {
        return character;
    }
    let signed = signed_integer_type(data_type);
    if signed != DeclaredType::Other {
        return signed;
    }
    let unsigned = unsigned_or_boolean_type(data_type);
    if unsigned != DeclaredType::Other {
        return unsigned;
    }
    approximate_or_temporal_type(data_type)
}

/// What the declared column at position `index` becomes.
pub open spec fn column_result(column: DeclaredColumn, index: int) -> Result<ColumnSpec, ParseError> {
    match logical_type(declared_type_of(column.data_type), custom_type_of(column.data_type)) {
        Some(column_type) => Ok(
            ColumnSpec {
                name: column.name,
                nullable: nullable_of(column.constraints),
                column_type,
            },
        ),
        None => Err(ParseError::UnsupportedType { column: index as usize }),
    }
}

/// The schema that the declared columns make: each column in source order, or the
/// error of the first column that has no logical type.
pub open spec fn schema_result(columns: Seq<DeclaredColumn>) -> Result<Seq<ColumnSpec>, ParseError>
    decreases columns.len(),
{
    if columns.len() == 0 {
        Ok(Seq::empty())
    } else {
        match schema_result(columns.drop_last()) {
            Err(e) => Err(e),
            Ok(head) => match column_result(columns.last(), columns.len() - 1) {
                Ok(column) => Ok(head.push(column)),
                Err(e) => Err(e),
            },
        }
    }
}

/// What the value expression at the given position becomes.
pub open spec fn cell_result(expr: Expr, row: int, column: int) -> Result<ValueSpec, ParseError> {
    match value_of(value_expr_of(expr)) {
        Ok(v) => Ok(v),
        Err(ValueError::Unsupported) => Err(
            ParseError::UnsupportedValue { row: row as usize, column: column as usize },
        ),
        Err(ValueError::BadNumber) => Err(
            ParseError::BadNumber { row: row as usize, column: column as usize },
        ),
    }
}

/// The tuple that the value expressions of row `row` make, or the error of the
/// first of them that gives no value.
pub open spec fn row_result(exprs: Seq<Expr>, row: int) -> Result<Seq<ValueSpec>, ParseError>
    decreases exprs.len(),
{
    if exprs.len() == 0 {
        Ok(Seq::empty())
    } else {
        match row_result(exprs.drop_last(), row) {
            Err(e) => Err(e),
            Ok(head) => match cell_result(exprs.last(), row, exprs.len() - 1) {
                Ok(v) => Ok(head.push(v)),
                Err(e) => Err(e),
            },
        }
    }
}

/// The batch that the rows of an insert make, or the error of the first value, in
/// reading order, that gives none.
pub open spec fn rows_result(rows: Seq<Seq<Expr>>) -> Result<Seq<Seq<ValueSpec>>, ParseError>
    decreases rows.len(),
{
    if rows.len() == 0 {
        Ok(Seq::empty())
    } else {
        match rows_result(rows.drop_last()) {
            Err(e) => Err(e),
            Ok(head) => match row_result(rows.last(), rows.len() - 1) {
                Ok(tuple) => Ok(head.push(tuple)),
                Err(e) => Err(e),
            },
        }
    }
}

/// The `Line` that a statement makes.
pub open spec fn statement_result(stmt: Statement) -> Result<LineSpec, ParseError> {
    match kind_of(stmt) {
        StatementKind::Other => Ok(LineSpec::NOP),
        StatementKind::CreateTable => if table_of(stmt).len() == 0 {
            Err(ParseError::MissingTableName)
        } else {
            match schema_result(columns_of(stmt)) {
                Ok(schema) => Ok(LineSpec::CreateTable(table_of(stmt)[0], schema)),
                Err(e) => Err(e),
            }
        },
        StatementKind::Insert => if table_of(stmt).len() == 0 {
            Err(ParseError::MissingTableName)
        } else {
            match rows_of(stmt) {
                None => Err(ParseError::NotValues),
                Some(rows) => match rows_result(rows) {
                    Ok(batch) => Ok(LineSpec::InsertInto(table_of(stmt)[0], batch)),
                    Err(e) => Err(e),
                },
            }
        },
    }
}

/// The `Line` that the text of one statement makes: nothing to do where the text
/// holds no statement, an error where it holds several. A text that cannot be
/// split into tokens is rejected, and one whose tokens are not safe is refused,
/// before the grammar is asked.
pub open spec fn parse_result(text: Seq<char>) -> Result<LineSpec, ParseError> {
    match tokens_of(text) {
        None => Err(ParseError::Syntax),
        Some(tokens) => if !safe_tokens(tokens) {
            Err(ParseError::Refused)
        } else {
            match parsed_statements(text) {
                None => Err(ParseError::Syntax),
                Some(statements) => if statements.len() == 0 {
                    Ok(LineSpec::NOP)
                } else if statements.len() == 1 {
                    statement_result(statements[0])
                } else {
                    Err(ParseError::TooManyStatements)
                },
            }
        },
    }
}

/// What a result of the parser stands for.
pub open spec fn line_result_view(res: Result<Line, ParseError>) -> Result<LineSpec, ParseError> {
    match res {
        Ok(line) => Ok(line@),
        Err(e) => Err(e),
    }
}

/// An error in a shorter run of columns is the error of every longer run.
pub proof fn lemma_schema_error_stays(columns: Seq<DeclaredColumn>, n: int)
    requires
        0 <= n <= columns.len(),
        schema_result(columns.take(n)) is Err,
    ensures
        schema_result(columns) == schema_result(columns.take(n)),
    decreases columns.len() - n,
{
    if n == columns.len() {
        assert(columns.take(n) =~= columns);
    } else {
        assert(columns.take(n + 1).drop_last() =~= columns.take(n));
        lemma_schema_error_stays(columns, n + 1);
    }
}

/// An error in a shorter run of value expressions is the error of every longer run.
pub proof fn lemma_row_error_stays(exprs: Seq<Expr>, row: int, n: int)
    requires
        0 <= n <= exprs.len(),
        row_result(exprs.take(n), row) is Err,
    ensures
        row_result(exprs, row) == row_result(exprs.take(n), row),
    decreases exprs.len() - n,
{
    if n == exprs.len() {
        assert(exprs.take(n) =~= exprs);
    } else {
        assert(exprs.take(n + 1).drop_last() =~= exprs.take(n));
        lemma_row_error_stays(exprs, row, n + 1);
    }
}

/// An error in a shorter run of rows is the error of every longer run.
pub proof fn lemma_rows_error_stays(rows: Seq<Seq<Expr>>, n: int)
    requires
        0 <= n <= rows.len(),
        rows_result(rows.take(n)) is Err,
    ensures
        rows_result(rows) == rows_result(rows.take(n)),
    decreases rows.len() - n,
{
    if n == rows.len() {
        assert(rows.take(n) =~= rows);
    } else {
        assert(rows.take(n + 1).drop_last() =~= rows.take(n));
        lemma_rows_error_stays(rows, n + 1);
    }
}

/// The schema that a table definition declares.
pub fn schema_of_statement(stmt: &Statement) -> (res: Result<Schema, ParseError>)
    ensures
        match res {
            Ok(schema) => schema_result(columns_of(*stmt)) == Ok::<Seq<ColumnSpec>, ParseError>(schema@),
            Err(e) => schema_result(columns_of(*stmt)) == Err::<Seq<ColumnSpec>, ParseError>(e),
        },
{
    let names = column_names(stmt);
    let types = column_types(stmt);
    let constraints = column_constraints(stmt);
    let ghost declared = columns_of(*stmt);
    let ghost name_views = names@.map_values(|name: String| name@);
    let ghost type_views = types@.map_values(|t: &DataType| *t);
    let ghost constraint_views = constraints@.map_values(|options: Vec<ColumnConstraint>| options@);
    assert(name_views.len() == declared.len());
    assert(type_views.len() == declared.len());
    assert(constraint_views.len() == declared.len());
    let mut columns: Vec<ColumnDef> = Vec::new();
    let ghost mut head: Seq<ColumnSpec> = Seq::empty();
    let mut i: usize = 0;
    assert(declared.take(0) =~= Seq::<DeclaredColumn>::empty());
    while i < names.len()
        invariant
            i <= names.len(),
            declared == columns_of(*stmt),
            names.len() == declared.len(),
            types.len() == declared.len(),
            constraints.len() == declared.len(),
            name_views == names@.map_values(|name: String| name@),
            type_views == types@.map_values(|t: &DataType| *t),
            constraint_views == constraints@.map_values(|options: Vec<ColumnConstraint>| options@),
            name_views == declared.map_values(|c: DeclaredColumn| c.name),
            type_views == declared.map_values(|c: DeclaredColumn| c.data_type),
            constraint_views == declared.map_values(|c: DeclaredColumn| c.constraints),
            schema_result(declared.take(i as int)) == Ok::<Seq<ColumnSpec>, ParseError>(head),
            head.len() == i,
            columns@.len() == i,
            forall|k: int| 0 <= k < i ==> (#[trigger] columns@[k])@ == head[k],
        decreases names.len() - i,
    {
        proof {
            assert(name_views[i as int] == names@[i as int]@);
            assert(name_views[i as int] == declared[i as int].name);
            assert(type_views[i as int] == *types@[i as int]);
            assert(type_views[i as int] == declared[i as int].data_type);
            assert(constraint_views[i as int] == constraints@[i as int]@);
            assert(constraint_views[i as int] == declared[i as int].constraints);
            assert(declared.take(i + 1).drop_last() =~= declared.take(i as int));
            assert(declared.take(i + 1).last() == declared[i as int]);
        }
        let data_type: &DataType = types[i];
        let custom = custom_type_name(data_type);
        match column_type_for(declared_type(data_type), &custom) {
            None => {
                proof {
                    lemma_schema_error_stays(declared, i + 1);
                }
                return Err(ParseError::UnsupportedType { column: i });
            },
            Some(column_type) => {
                let column = ColumnDef {
                    column_name: names[i].clone(),
                    nullable: nullability(&constraints[i]),
                    column_type,
                };
                proof {
                    head = head.push(column@);
                }
                columns.push(column);
            },
        }
        i += 1;
    }
    assert(declared.take(i as int) =~= declared);
    let schema = Schema(columns);
    assert(schema@ =~= head);
    Ok(schema)
}

/// The tuple that the value expressions of row `row` make.
pub fn values_of_row(exprs: &Vec<Expr>, row: usize) -> (res: Result<Vec<ColumnValue>, ParseError>)
    ensures
        match res {
            Ok(tuple) => row_result(exprs@, row as int) == Ok::<Seq<ValueSpec>, ParseError>(
                row_view(tuple),
            ),
            Err(e) => row_result(exprs@, row as int) == Err::<Seq<ValueSpec>, ParseError>(e),
        },
{
    let mut tuple: Vec<ColumnValue> = Vec::new();
    let ghost mut head: Seq<ValueSpec> = Seq::empty();
    let mut j: usize = 0;
    assert(exprs@.take(0) =~= Seq::<Expr>::empty());
    while j < exprs.len()
        invariant
            j <= exprs.len(),
            row_result(exprs@.take(j as int), row as int) == Ok::<Seq<ValueSpec>, ParseError>(head),
            head.len() == j,
            tuple@.len() == j,
            forall|k: int| 0 <= k < j ==> (#[trigger] tuple@[k])@ == head[k],
        decreases exprs.len() - j,
    {
        proof {
            assert(exprs@.take(j + 1).drop_last() =~= exprs@.take(j as int));
            assert(exprs@.take(j + 1).last() == exprs@[j as int]);
        }
        match column_value(value_expr(&exprs[j])) {
            Ok(v) => {
                proof {
                    head = head.push(v@);
                }
                tuple.push(v);
            },
            Err(ValueError::Unsupported) => {
                proof {
                    lemma_row_error_stays(exprs@, row as int, j + 1);
                }
                return Err(ParseError::UnsupportedValue { row, column: j });
            },
            Err(ValueError::BadNumber) => {
                proof {
                    lemma_row_error_stays(exprs@, row as int, j + 1);
                }
                return Err(ParseError::BadNumber { row, column: j });
            },
        }
        j += 1;
    }
    assert(exprs@.take(j as int) =~= exprs@);
    assert(row_view(tuple) =~= head);
    Ok(tuple)
}

/// What the rows of an insert stand for.
pub open spec fn exprs_view(rows: Vec<Vec<Expr>>) -> Seq<Seq<Expr>> {
    rows@.map_values(|row: Vec<Expr>| row@)
}

/// The batch that the rows of an insert make.
pub fn values_of_rows(rows: &Vec<Vec<Expr>>) -> (res: Result<Vec<Vec<ColumnValue>>, ParseError>)
    ensures
        match res {
            Ok(batch) => rows_result(exprs_view(*rows)) == Ok::<Seq<Seq<ValueSpec>>, ParseError>(
                rows_view(batch),
            ),
            Err(e) => rows_result(exprs_view(*rows)) == Err::<Seq<Seq<ValueSpec>>, ParseError>(e),
        },
{
    let ghost all = exprs_view(*rows);
    let mut batch: Vec<Vec<ColumnValue>> = Vec::new();
    let ghost mut head: Seq<Seq<ValueSpec>> = Seq::empty();
    let mut i: usize = 0;
    assert(all.take(0) =~= Seq::<Seq<Expr>>::empty());
    while i < rows.len()
        invariant
            i <= rows.len(),
            all == exprs_view(*rows),
            rows_result(all.take(i as int)) == Ok::<Seq<Seq<ValueSpec>>, ParseError>(head),
            head.len() == i,
            batch@.len() == i,
            forall|k: int| 0 <= k < i ==> row_view(#[trigger] batch@[k]) == head[k],
        decreases rows.len() - i,
    {
        proof {
            assert(all.take(i + 1).drop_last() =~= all.take(i as int));
            assert(all.take(i + 1).last() == rows@[i as int]@);
        }
        match values_of_row(&rows[i], i) {
            Ok(tuple) => {
                proof {
                    head = head.push(row_view(tuple));
                }
                batch.push(tuple);
            },
            Err(e) => {
                proof {
                    lemma_rows_error_stays(all, i + 1);
                }
                return Err(e);
            },
        }
        i += 1;
    }
    assert(all.take(i as int) =~= all);
    assert(rows_view(batch) =~= head);
    Ok(batch)
}

/// The `Line` that one statement makes: a table definition gives its schema, an
/// insert from a `VALUES` list its rows, anything else nothing to do.
pub fn line_of_statement(stmt: &Statement) -> (res: Result<Line, ParseError>)
    ensures
        line_result_view(res) == statement_result(*stmt),
{
    match statement_kind(stmt) {
        StatementKind::Other => Ok(Line::NOP),
        StatementKind::CreateTable => {
            let name = table_name(stmt);
            if name.len() == 0 {
                return Err(ParseError::MissingTableName);
            }
            assert(parts_view(name)[0] == name@[0]@);
            match schema_of_statement(stmt) {
                Ok(schema) => Ok(Line::CreateTable(name[0].clone(), schema)),
                Err(e) => Err(e),
            }
        },
        StatementKind::Insert => {
            let name = table_name(stmt);
            if name.len() == 0 {
                return Err(ParseError::MissingTableName);
            }
            assert(parts_view(name)[0] == name@[0]@);
            match inserted_rows(stmt) {
                None => Err(ParseError::NotValues),
                Some(rows) => match values_of_rows(rows) {
                    Ok(batch) => Ok(Line::InsertInto(name[0].clone(), batch)),
                    Err(e) => Err(e),
                },
            }
        },
    }
}

/// Parses the text of one statement into a `Line`.
pub fn parse_line(line: &str) -> (res: Result<Line, ParseError>)
    ensures
        line_result_view(res) == parse_result(line@),
{
    let tokens = match tokenize(line) {
        Some(tokens) => tokens,
        None => {
            return Err(ParseError::Syntax);
        },
    };
    if !tokens_are_safe(&tokens) {
        return Err(ParseError::Refused);
    }
    match parse_sql(line) {
        Err(_) => Err(ParseError::Syntax),
        Ok(statements) => {
            if statements.len() == 0 {
                Ok(Line::NOP)
            } else if statements.len() == 1 {
                line_of_statement(&statements[0])
            } else {
                Err(ParseError::TooManyStatements)
            }
        },
    }
}

/// What the grammar says against a text that is handed to it and that it rejects;
/// `None` for any other text.
pub fn syntax_error(line: &str) -> (res: Option<String>)
    ensures
        res is Some <==> parser_returns(line@) && parsed_statements(line@) is None,
{
    let tokens = match tokenize(line) {
        Some(tokens) => tokens,
        None => {
            return None;
        },
    };
    if !tokens_are_safe(&tokens) {
        return None;
    }
    match parse_sql(line) {
        Err(error) => Some(error_message(&error)),
        Ok(_) => None,
    }
}

/// A schema has one column for each declared column, under the declared name.
pub proof fn lemma_schema_follows_columns(columns: Seq<DeclaredColumn>)
    requires
        schema_result(columns) is Ok,
    ensures
        schema_result(columns)->Ok_0.len() == columns.len(),
        forall|i: int|
            0 <= i < columns.len() ==> column_result(columns[i], i) == Ok::<ColumnSpec, ParseError>(
                #[trigger] schema_result(columns)->Ok_0[i],
            ),
    decreases columns.len(),
{
    if columns.len() > 0 {
        lemma_schema_follows_columns(columns.drop_last());
    }
}

/// Every accepted table definition gives a schema whose column names are the
/// declared names, in source order.
pub proof fn lemma_definition_keeps_column_names(text: Seq<char>)
    requires
        parse_result(text) is Ok,
        parse_result(text)->Ok_0 is CreateTable,
    ensures
        parsed_statements(text) is Some,
        parsed_statements(text)->0.len() == 1,
        parse_result(text)->Ok_0->CreateTable_1.map_values(|c: ColumnSpec| c.name) == columns_of(
            parsed_statements(text)->0[0],
        ).map_values(|c: DeclaredColumn| c.name),
{
    let stmt = parsed_statements(text)->0[0];
    let declared = columns_of(stmt);
    lemma_schema_follows_columns(declared);
    let schema = schema_result(declared)->Ok_0;
    assert(schema.map_values(|c: ColumnSpec| c.name) =~= declared.map_values(
        |c: DeclaredColumn| c.name,
    ));
}

/// A tuple has one value for each value expression of its row.
pub proof fn lemma_row_keeps_width(exprs: Seq<Expr>, row: int)
    requires
        row_result(exprs, row) is Ok,
    ensures
        row_result(exprs, row)->Ok_0.len() == exprs.len(),
    decreases exprs.len(),
{
    if exprs.len() > 0 {
        lemma_row_keeps_width(exprs.drop_last(), row);
    }
}

/// A batch has one tuple for each row, as wide as the row.
pub proof fn lemma_rows_keep_shape(rows: Seq<Seq<Expr>>)
    requires
        rows_result(rows) is Ok,
    ensures
        rows_result(rows)->Ok_0.len() == rows.len(),
        forall|i: int|
            0 <= i < rows.len() ==> (#[trigger] rows_result(rows)->Ok_0[i]).len() == rows[i].len(),
    decreases rows.len(),
{
    if rows.len() > 0 {
        lemma_rows_keep_shape(rows.drop_last());
        lemma_row_keeps_width(rows.last(), rows.len() - 1);
    }
}

/// Every accepted insert of N rows gives a batch of exactly N tuples, each as wide
/// as the row of value expressions it was written as.
pub proof fn lemma_insert_keeps_shape(text: Seq<char>)
    requires
        parse_result(text) is Ok,
        parse_result(text)->Ok_0 is InsertInto,
    ensures
        parsed_statements(text) is Some,
        parsed_statements(text)->0.len() == 1,
        rows_of(parsed_statements(text)->0[0]) is Some,
        parse_result(text)->Ok_0->InsertInto_1.len() == rows_of(
            parsed_statements(text)->0[0],
        )->0.len(),
        forall|i: int|
            0 <= i < parse_result(text)->Ok_0->InsertInto_1.len() ==> (
            #[trigger] parse_result(text)->Ok_0->InsertInto_1[i]).len() == rows_of(
                parsed_statements(text)->0[0],
            )->0[i].len(),
{
    let stmt = parsed_statements(text)->0[0];
    lemma_rows_keep_shape(rows_of(stmt)->0);
}

/// A numeric literal without a decimal point is an integer, one with a decimal
/// point is a float, whether or not a unary minus stands before it.
pub proof fn lemma_point_decides_tag(text: Seq<char>, negated: bool)
    requires
        number_value(text, negated) is Some,
    ensures
        !text.contains('.') <==> number_value(text, negated)->0 is Integer,
        text.contains('.') <==> number_value(text, negated)->0 is Float,
{
}

/// A unary minus turns the sign of a numeric literal and changes nothing else: an
/// integer becomes its negative, a float keeps its digits under the opposite sign.
pub proof fn lemma_minus_turns_sign(text: Seq<char>)
    requires
        number_value(text, false) is Some,
    ensures
        number_value(text, false) matches Some(ValueSpec::Integer(v)) ==> v != i64::MIN
            ==> number_value(text, true) == Some(ValueSpec::Integer((-v) as i64)),
        number_value(text, false) matches Some(ValueSpec::Float(digits)) ==> number_value(text, true)
            == Some(ValueSpec::Float(negated_literal(digits))),
        number_value(text, false) matches Some(ValueSpec::Float(digits)) ==> is_negative(
            negated_literal(digits),
        ) == !is_negative(digits),
{
    if text.contains('.') {
        if !is_negative(text) {
            assert(negated_literal(text)[0] == '-');
        } else {
            // a literal holds at most one sign: what follows `-` is a digit or the point
            let body = without_sign(text);
            crate::number::lemma_float_body_starts_unsigned(text);
            assert(negated_literal(text) == body);
        }
    }
}

} // verus!
