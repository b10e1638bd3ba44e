//! The boundary to the SQL grammar. Statements are parsed by `sqlparser`; this
//! module declares the parts of its syntax tree that the library reads, names what
//! each part holds, and reads each part through one small trusted function.
//! Nothing here decides anything: the rules are in `crate::line_parser`.

use vstd::prelude::*;
use crate::guard::safe_tokens;
use sqlparser::ast::{ColumnOption, DataType, Expr, SetExpr, Statement, UnaryOperator, Value};
use sqlparser::keywords::Keyword;
use sqlparser::tokenizer::Token;

verus! {

#[verifier::external_type_specification]
#[verifier::external_body]
pub struct ExStatement(sqlparser::ast::Statement);

#[verifier::external_type_specification]
#[verifier::external_body]
pub struct ExDataType(sqlparser::ast::DataType);

#[verifier::external_type_specification]
#[verifier::external_body]
pub struct ExExpr(sqlparser::ast::Expr);

#[verifier::external_type_specification]
#[verifier::external_body]
pub struct ExParserError(sqlparser::parser::ParserError);

#[verifier::external_type_specification]
#[verifier::external_body]
pub struct ExToken(sqlparser::tokenizer::Token);

/// What a token is, as far as the guard before the grammar reads it. `Other`
/// stands for every other token.
#[derive(Clone, Copy, Debug, PartialEq, Eq, Structural)]
pub enum TokenShape {
    /// white space or a comment
    Whitespace,
    Comma,
    LParen,
    RParen,
    LBracket,
    RBracket,
    LBrace,
    RBrace,
    /// the sign `<`
    Lt,
    /// the sign `=`
    Eq,
    /// an unsigned numeric literal
    Number,
    Other,
}

/// What kind of word a token is.
#[derive(Clone, Copy, Debug, PartialEq, Eq, Structural)]
pub enum KeywordMark {
    /// no word at all
    NotWord,
    /// a word that is no keyword: a name, quoted or not
    Name,
    AutoIncrement,
    Top,
    Granted,
    By,
    Union,
    Except,
    Intersect,
    Div,
    /// any other keyword
    Keyword,
}

/// The three shapes of statement that matter.
#[derive(Clone, Copy, Debug, PartialEq, Eq, Structural)]
pub enum StatementKind {
    CreateTable,
    Insert,
    Other,
}

/// The declared type of a column, as the grammar distinguishes them. `Other`
/// stands for every type that has no entry here.
#[derive(Clone, Copy, Debug, PartialEq, Eq, Structural)]
pub enum DeclaredType {
    Varchar,
    Char,
    Text,
    String,
    Enum,
    Custom,
    Numeric,
    Decimal,
    BigNumeric,
    BigDecimal,
    Dec,
    TinyInt,
    Int2,
    SmallInt,
    MediumInt,
    Int,
    Int4,
    Int64,
    Integer,
    BigInt,
    Int8,
    UnsignedTinyInt,
    UnsignedInt2,
    UnsignedSmallInt,
    UnsignedMediumInt,
    UnsignedInt,
    UnsignedInt4,
    UnsignedInteger,
    UnsignedBigInt,
    UnsignedInt8,
    Bool,
    Boolean,
    Float,
    Float4,
    Float64,
    Real,
    Float8,
    Double,
    DoublePrecision,
    Date,
    Time,
    Datetime,
    Timestamp,
    Other,
}

/// An option that follows a column's type, as far as nullability reads it.
#[derive(Clone, Copy, Debug, PartialEq, Eq, Structural)]
pub enum ColumnConstraint {
    Null,
    NotNull,
    Unique { is_primary: bool },
    Other,
}

/// A column as a table definition declares it.
pub struct DeclaredColumn {
    /// the unquoted name
    pub name: Seq<char>,
    /// the type, as the grammar read it
    pub data_type: DataType,
    /// the options that follow the type, in source order
    pub constraints: Seq<ColumnConstraint>,
}

/// A value expression of an insert, as far as the library reads it. `Unsupported`
/// stands for every other expression.
#[derive(Debug, PartialEq, Eq)]
pub enum ValueExpr {
    /// an unsigned numeric literal, as written
    Number(String),
    /// a unary minus applied to a numeric literal
    NegatedNumber(String),
    /// a single-quoted string, unescaped
    SingleQuoted(String),
    Boolean(bool),
    Null,
    Unsupported,
}

/// `d` where `chosen` holds, `Other` where it does not.
pub open spec fn only(d: DeclaredType, chosen: bool) -> DeclaredType {
    if chosen {
        d
    } else {
        DeclaredType::Other
    }
}

pub open spec fn is_character_or_exact(d: DeclaredType) -> bool {
    d is Varchar || d is Char || d is Text || d is String || d is Enum || d is Custom
        || d is Numeric || d is Decimal || d is BigNumeric || d is BigDecimal || d is Dec
}

pub open spec fn is_signed_integer(d: DeclaredType) -> bool {
    d is TinyInt || d is Int2 || d is SmallInt || d is MediumInt || d is Int || d is Int4
        || d is Int64 || d is Integer || d is BigInt || d is Int8
}

pub open spec fn is_unsigned_or_boolean(d: DeclaredType) -> bool {
    d is UnsignedTinyInt || d is UnsignedInt2 || d is UnsignedSmallInt || d is UnsignedMediumInt
        || d is UnsignedInt || d is UnsignedInt4 || d is UnsignedInteger || d is UnsignedBigInt
        || d is UnsignedInt8 || d is Bool || d is Boolean
}

pub open spec fn is_approximate_or_temporal(d: DeclaredType) -> bool {
    d is Float || d is Float4 || d is Float64 || d is Real || d is Float8 || d is Double
        || d is DoublePrecision || d is Date || d is Time || d is Datetime || d is Timestamp
}

/// The tokens that `text` is split into, or `None` where it cannot be split.
pub uninterp spec fn tokens_of(text: Seq<char>) -> Option<Seq<Token>>;

/// What a token is.
pub uninterp spec fn shape_of(token: Token) -> TokenShape;

/// Which keyword a token is.
pub uninterp spec fn keyword_of(token: Token) -> KeywordMark;

/// The text of a numeric literal; empty for any other token.
pub uninterp spec fn number_of(token: Token) -> Seq<char>;

/// Whether a token is a string literal.
pub uninterp spec fn is_string_literal(token: Token) -> bool;

/// What a parser's error says.
pub uninterp spec fn message_of(error: sqlparser::parser::ParserError) -> Seq<char>;

/// The statements that the grammar reads in `text`, or `None` where it rejects it.
pub uninterp spec fn parsed_statements(text: Seq<char>) -> Option<Seq<Statement>>;

/// Which of the three shapes `stmt` has.
pub uninterp spec fn kind_of(stmt: Statement) -> StatementKind;

/// The parts of the name of the table that `stmt` creates or fills, unquoted;
/// empty for any other statement.
pub uninterp spec fn table_of(stmt: Statement) -> Seq<Seq<char>>;

/// The columns that a table definition declares, in source order; empty for any
/// other statement.
pub uninterp spec fn columns_of(stmt: Statement) -> Seq<DeclaredColumn>;

/// The rows of an insert whose source is a plain `VALUES` list; `None` for an
/// insert from any other source, and for any other statement.
pub uninterp spec fn rows_of(stmt: Statement) -> Option<Seq<Seq<Expr>>>;

/// Which declared type `data_type` is.
pub uninterp spec fn declared_type_of(data_type: DataType) -> DeclaredType;

/// The parts of the name of `data_type` where it is a custom type, unquoted; empty
/// for any other type.
pub uninterp spec fn custom_type_of(data_type: DataType) -> Seq<Seq<char>>;

/// What a value expression is.
pub uninterp spec fn value_expr_of(expr: Expr) -> ValueExpr;

/// `Tokenizer::tokenize` with the MySQL dialect: the tokens of `text`, white space
/// and comments among them, or `None` for the tokenizer's error. The tokenizer
/// reads the text in one loop and returns on every text; its result depends on
/// `text` alone.
#[verifier::external_body]
pub(crate) fn tokenize(text: &str) -> (res: Option<Vec<Token>>)
    ensures
        match res {
            Some(tokens) => tokens_of(text@) == Some(tokens@),
            None => tokens_of(text@) is None,
        },
{
    sqlparser::tokenizer::Tokenizer::new(&sqlparser::dialect::MySqlDialect {}, text).tokenize().ok()
}

/// Tells apart the variants of `Token` that separate, open, close or are a number.
#[verifier::external_body]
pub(crate) fn token_shape(token: &Token) -> (res: TokenShape)
    ensures
        res == shape_of(*token),
{
    match token {
        Token::Whitespace(_) => TokenShape::Whitespace,
        Token::Comma => TokenShape::Comma,
        Token::LParen => TokenShape::LParen,
        Token::RParen => TokenShape::RParen,
        Token::LBracket => TokenShape::LBracket,
        Token::RBracket => TokenShape::RBracket,
        Token::LBrace => TokenShape::LBrace,
        Token::RBrace => TokenShape::RBrace,
        Token::Lt => TokenShape::Lt,
        Token::Eq => TokenShape::Eq,
        Token::Number(_, _) => TokenShape::Number,
        _ => TokenShape::Other,
    }
}

/// The field `keyword` of a `Token::Word`: whether it is `Keyword::NoKeyword`,
/// one of eight other variants of `Keyword`, or any other.
#[verifier::external_body]
pub(crate) fn token_keyword(token: &Token) -> (res: KeywordMark)
    ensures
        res == keyword_of(*token),
{
    match token {
        Token::Word(word) => match word.keyword {
            Keyword::NoKeyword => KeywordMark::Name,
            Keyword::AUTO_INCREMENT => KeywordMark::AutoIncrement,
            Keyword::TOP => KeywordMark::Top,
            Keyword::GRANTED => KeywordMark::Granted,
            Keyword::BY => KeywordMark::By,
            Keyword::UNION => KeywordMark::Union,
            Keyword::EXCEPT => KeywordMark::Except,
            Keyword::INTERSECT => KeywordMark::Intersect,
            Keyword::DIV => KeywordMark::Div,
            _ => KeywordMark::Keyword,
        },
        _ => KeywordMark::NotWord,
    }
}

/// Tells the variants of `Token` that are string literals from the rest.
#[verifier::external_body]
pub(crate) fn token_is_string(token: &Token) -> (res: bool)
    ensures
        res == is_string_literal(*token),
{
    match token {
        Token::SingleQuotedString(_) => true,
        Token::DoubleQuotedString(_) => true,
        Token::NationalStringLiteral(_) => true,
        Token::EscapedStringLiteral(_) => true,
        Token::HexStringLiteral(_) => true,
        _ => false,
    }
}

/// The text in a `Token::Number`.
#[verifier::external_body]
pub(crate) fn number_text(token: &Token) -> (res: String)
    ensures
        res@ == number_of(*token),
{
    match token {
        Token::Number(text, _) => text.clone(),
        _ => String::new(),
    }
}

/// `Parser::parse_sql` with the MySQL dialect: the statements of `text`, or the
/// parser's error. The result depends on `text` alone.
///
/// The parser does not return on every text. It unwinds where `AUTO_INCREMENT` or
/// `TOP` stands before a number that it cannot hold, where `GRANTED BY` stands
/// before anything but an identifier, and where the operator `DIV` of the dialect
/// stands before anything but an expression. And it descends one level, at most, for each
/// token that is no name, no literal, no comma and no closing bracket, without a
/// limit of its own for prefix operators, brackets of types and joins; it comes
/// back from the descent at a comma and at a closing bracket, while the tree that
/// it builds stays one level deeper after each of `UNION`, `EXCEPT` and
/// `INTERSECT`. It is called only on texts whose tokens `safe_tokens` accepts:
/// they hold none of those forms, and nowhere do more than `MAX_LEVELS` such
/// tokens stand open.
#[verifier::external_body]
pub(crate) fn parse_sql(text: &str) -> (res: Result<Vec<Statement>, sqlparser::parser::ParserError>)
    requires
        tokens_of(text@) matches Some(tokens) && safe_tokens(tokens),
    ensures
        match res {
            Ok(statements) => parsed_statements(text@) == Some(statements@),
            Err(_) => parsed_statements(text@) is None,
        },
{
    sqlparser::parser::Parser::parse_sql(&sqlparser::dialect::MySqlDialect {}, text)
}

/// `ParserError` as `Display` writes it.
#[verifier::external_body]
pub(crate) fn error_message(error: &sqlparser::parser::ParserError) -> (res: String)
    ensures
        res@ == message_of(*error),
{
    error.to_string()
}

/// Tells the variants `Statement::CreateTable` and `Statement::Insert` from the rest.
#[verifier::external_body]
pub(crate) fn statement_kind(stmt: &Statement) -> (res: StatementKind)
    ensures
        res == kind_of(*stmt),
{
    match stmt {
        Statement::CreateTable { .. } => StatementKind::CreateTable,
        Statement::Insert { .. } => StatementKind::Insert,
        _ => StatementKind::Other,
    }
}

/// The field `name` of `Statement::CreateTable`, or `table_name` of
/// `Statement::Insert`: the `value` of each of its identifiers.
#[verifier::external_body]
pub(crate) fn table_name(stmt: &Statement) -> (res: Vec<String>)
    ensures
        res@.map_values(|part: String| part@) == table_of(*stmt),
{
    match stmt {
        Statement::CreateTable { name, .. } => name.0.iter().map(|id| id.value.clone()).collect(),
        Statement::Insert { table_name, .. } => table_name.0.iter().map(|id| id.value.clone()).collect(),
        _ => Vec::new(),
    }
}

/// The field `rows` of the `SetExpr::Values` that is the body of the field
/// `source` of `Statement::Insert`.
#[verifier::external_body]
pub(crate) fn inserted_rows(stmt: &Statement) -> (res: Option<&Vec<Vec<Expr>>>)
    ensures
        match res {
            Some(rows) => rows_of(*stmt) == Some(rows@.map_values(|row: Vec<Expr>| row@)),
            None => rows_of(*stmt) is None,
        },
{
    match stmt {
        Statement::Insert { source: Some(query), .. } => match query.body.as_ref() {
            SetExpr::Values(values) => Some(&values.rows),
            _ => None,
        },
        _ => None,
    }
}

/// The `value` of the field `name` of each `ColumnDef` of `Statement::CreateTable`.
#[verifier::external_body]
pub(crate) fn column_names(stmt: &Statement) -> (res: Vec<String>)
    ensures
        res@.map_values(|name: String| name@) == columns_of(*stmt).map_values(|c: DeclaredColumn| c.name),
{
    match stmt {
        Statement::CreateTable { columns, .. } => columns.iter().map(|c| c.name.value.clone()).collect(),
        _ => Vec::new(),
    }
}

/// The field `data_type` of each `ColumnDef` of `Statement::CreateTable`.
#[verifier::external_body]
pub(crate) fn column_types(stmt: &Statement) -> (res: Vec<&DataType>)
    ensures
        res@.map_values(|t: &DataType| *t) == columns_of(*stmt).map_values(|c: DeclaredColumn| c.data_type),
{
    match stmt {
        Statement::CreateTable { columns, .. } => columns.iter().map(|c| &c.data_type).collect(),
        _ => Vec::new(),
    }
}

/// Tells the character and exact numeric variants of `DataType` apart.
#[verifier::external_body]
pub(crate) fn character_or_exact_type(data_type: &DataType) -> (res: DeclaredType)
    ensures
        res == only(declared_type_of(*data_type), is_character_or_exact(declared_type_of(*data_type))),
{
    match data_type {
        DataType::Varchar(_) => DeclaredType::Varchar,
        DataType::Char(_) => DeclaredType::Char,
        DataType::Text => DeclaredType::Text,
        DataType::String(_) => DeclaredType::String,
        DataType::Enum(_) => DeclaredType::Enum,
        DataType::Custom(_, _) => DeclaredType::Custom,
        DataType::Numeric(_) => DeclaredType::Numeric,
        DataType::Decimal(_) => DeclaredType::Decimal,
        DataType::BigNumeric(_) => DeclaredType::BigNumeric,
        DataType::BigDecimal(_) => DeclaredType::BigDecimal,
        DataType::Dec(_) => DeclaredType::Dec,
        _ => DeclaredType::Other,
    }
}

/// Tells the signed integer variants of `DataType` apart.
#[verifier::external_body]
pub(crate) fn signed_integer_type(data_type: &DataType) -> (res: DeclaredType)
    ensures
        res == only(declared_type_of(*data_type), is_signed_integer(declared_type_of(*data_type))),
{
    match data_type {
        DataType::TinyInt(_) => DeclaredType::TinyInt,
        DataType::Int2(_) => DeclaredType::Int2,
        DataType::SmallInt(_) => DeclaredType::SmallInt,
        DataType::MediumInt(_) => DeclaredType::MediumInt,
        DataType::Int(_) => DeclaredType::Int,
        DataType::Int4(_) => DeclaredType::Int4,
        DataType::Int64 => DeclaredType::Int64,
        DataType::Integer(_) => DeclaredType::Integer,
        DataType::BigInt(_) => DeclaredType::BigInt,
        DataType::Int8(_) => DeclaredType::Int8,
        _ => DeclaredType::Other,
    }
}

/// Tells the unsigned integer and the boolean variants of `DataType` apart.
#[verifier::external_body]
pub(crate) fn unsigned_or_boolean_type(data_type: &DataType) -> (res: DeclaredType)
    ensures
        res == only(declared_type_of(*data_type), is_unsigned_or_boolean(declared_type_of(*data_type))),
{
    match data_type {
        DataType::UnsignedTinyInt(_) => DeclaredType::UnsignedTinyInt,
        DataType::UnsignedInt2(_) => DeclaredType::UnsignedInt2,
        DataType::UnsignedSmallInt(_) => DeclaredType::UnsignedSmallInt,
        DataType::UnsignedMediumInt(_) => DeclaredType::UnsignedMediumInt,
        DataType::UnsignedInt(_) => DeclaredType::UnsignedInt,
        DataType::UnsignedInt4(_) => DeclaredType::UnsignedInt4,
        DataType::UnsignedInteger(_) => DeclaredType::UnsignedInteger,
        DataType::UnsignedBigInt(_) => DeclaredType::UnsignedBigInt,
        DataType::UnsignedInt8(_) => DeclaredType::UnsignedInt8,
        DataType::Bool => DeclaredType::Bool,
        DataType::Boolean => DeclaredType::Boolean,
        _ => DeclaredType::Other,
    }
}

/// Tells the approximate numeric and the temporal variants of `DataType` apart.
#[verifier::external_body]
pub(crate) fn approximate_or_temporal_type(data_type: &DataType) -> (res: DeclaredType)
    ensures
        res == only(declared_type_of(*data_type), is_approximate_or_temporal(declared_type_of(*data_type))),
{
    match data_type {
        DataType::Float(_) => DeclaredType::Float,
        DataType::Float4 => DeclaredType::Float4,
        DataType::Float64 => DeclaredType::Float64,
        DataType::Real => DeclaredType::Real,
        DataType::Float8 => DeclaredType::Float8,
        DataType::Double => DeclaredType::Double,
        DataType::DoublePrecision => DeclaredType::DoublePrecision,
        DataType::Date => DeclaredType::Date,
        DataType::Time(_, _) => DeclaredType::Time,
        DataType::Datetime(_) => DeclaredType::Datetime,
        DataType::Timestamp(_, _) => DeclaredType::Timestamp,
        _ => DeclaredType::Other,
    }
}

/// The name in `DataType::Custom`: the `value` of each of its identifiers.
#[verifier::external_body]
pub(crate) fn custom_type_name(data_type: &DataType) -> (res: Vec<String>)
    ensures
        res@.map_values(|part: String| part@) == custom_type_of(*data_type),
{
    match data_type {
        DataType::Custom(name, _) => name.0.iter().map(|id| id.value.clone()).collect(),
        _ => Vec::new(),
    }
}

/// For each column of `Statement::CreateTable`, its field `options`: for each
/// option, which variant of `ColumnOption` it is.
#[verifier::external_body]
pub(crate) fn column_constraints(stmt: &Statement) -> (res: Vec<Vec<ColumnConstraint>>)
    ensures
        res@.map_values(|options: Vec<ColumnConstraint>| options@)
            == columns_of(*stmt).map_values(|c: DeclaredColumn| c.constraints),
{
    match stmt {
        Statement::CreateTable { columns, .. } => columns.iter().map(|c| c.options.iter().map(|o| match o.option {
            ColumnOption::Null => ColumnConstraint::Null,
            ColumnOption::NotNull => ColumnConstraint::NotNull,
            ColumnOption::Unique { is_primary } => ColumnConstraint::Unique { is_primary },
            _ => ColumnConstraint::Other,
        }).collect()).collect(),
        _ => Vec::new(),
    }
}

/// Tells apart the variants of `Expr` and `Value` that stand for a literal, and a
/// `UnaryOperator::Minus` applied to a `Value::Number`.
#[verifier::external_body]
pub(crate) fn value_expr(expr: &Expr) -> (res: ValueExpr)
    ensures
        res == value_expr_of(*expr),
{
    match expr {
        Expr::Value(Value::Number(text, _)) => ValueExpr::Number(text.clone()),
        Expr::Value(Value::SingleQuotedString(text)) => ValueExpr::SingleQuoted(text.clone()),
        Expr::Value(Value::Boolean(flag)) => ValueExpr::Boolean(*flag),
        Expr::Value(Value::Null) => ValueExpr::Null,
        Expr::UnaryOp { op: UnaryOperator::Minus, expr } => match expr.as_ref() {
            Expr::Value(Value::Number(text, _)) => ValueExpr::NegatedNumber(text.clone()),
            _ => ValueExpr::Unsupported,
        },
        _ => ValueExpr::Unsupported,
    }
}

} // verus!
