use dump2parquet::line_parser::{
    column_type_for, column_value, line_of_statement, nullability, parse_line, parse_number,
    syntax_error, ParseError, ValueError,
};
use dump2parquet::schema::{ColumnType, ColumnValue, Line};
use dump2parquet::sql::{ColumnConstraint, DeclaredType, ValueExpr};
use sqlparser::ast::helpers::stmt_create_table::CreateTableBuilder;
use sqlparser::ast::ObjectName;

fn schema_of(text: &str) -> Vec<(String, bool, ColumnType)> {
    match parse_line(text).unwrap() {
        Line::CreateTable(_, schema) => schema
            .0
            .into_iter()
            .map(|c| (c.column_name, c.nullable, c.column_type))
            .collect(),
        other => panic!("{other:?} is no table definition"),
    }
}

fn rows_of(text: &str) -> Vec<Vec<ColumnValue>> {
    match parse_line(text).unwrap() {
        Line::InsertInto(_, rows) => rows,
        other => panic!("{other:?} is no insert"),
    }
}

#[test]
fn tinyint_of_width_one_is_an_integer() {
    assert_eq!(
        schema_of("CREATE TABLE `t` (`flag` tinyint(1) NOT NULL);"),
        vec![("flag".to_string(), false, ColumnType::Integer)]
    );
}

#[test]
fn column_names_come_in_source_order() {
    let schema = schema_of("CREATE TABLE t (zeta int, Alpha text, `m i d` double, alpha date);");
    let names: Vec<&str> = schema.iter().map(|c| c.0.as_str()).collect();
    assert_eq!(names, vec!["zeta", "Alpha", "m i d", "alpha"]);
}

#[test]
fn each_family_of_declared_types() {
    let schema = schema_of(
        "CREATE TABLE t (a varchar(10), b text, c char(3), d enum('x','y'), e longtext, f mediumtext, \
         g tinyint, h smallint unsigned, i mediumint, j int, k integer, l bigint unsigned, m decimal(10,2), n numeric(5), \
         o float, p real, q double, r double precision, s date, t time, u datetime, v timestamp, w bool, x boolean);",
    );
    let types: Vec<ColumnType> = schema.iter().map(|c| c.2).collect();
    let mut expected = vec![ColumnType::String; 6];
    expected.extend(vec![ColumnType::Integer; 8]);
    expected.extend(vec![ColumnType::Float; 4]);
    expected.extend(vec![ColumnType::Timestamp; 4]);
    expected.extend(vec![ColumnType::Boolean; 2]);
    assert_eq!(types, expected);
}

#[test]
fn first_deciding_option_settles_nullability() {
    let schema = schema_of(
        "CREATE TABLE t (a int, b int NULL, c int NOT NULL, d int PRIMARY KEY, e int UNIQUE, \
         f int DEFAULT 1 NOT NULL, g int NULL NOT NULL, h int NOT NULL NULL, i int UNIQUE NOT NULL);",
    );
    let nullable: Vec<bool> = schema.iter().map(|c| c.1).collect();
    assert_eq!(nullable, vec![true, true, false, false, true, false, true, false, false]);
}

#[test]
fn nullability_on_plain_options() {
    assert!(nullability(&vec![]));
    assert!(nullability(&vec![ColumnConstraint::Other, ColumnConstraint::Other]));
    assert!(nullability(&vec![ColumnConstraint::Unique { is_primary: false }]));
    assert!(!nullability(&vec![ColumnConstraint::Unique { is_primary: true }]));
    assert!(nullability(&vec![ColumnConstraint::Other, ColumnConstraint::Null, ColumnConstraint::NotNull]));
    assert!(!nullability(&vec![
        ColumnConstraint::Unique { is_primary: false },
        ColumnConstraint::NotNull,
        ColumnConstraint::Null
    ]));
}

#[test]
fn logical_type_of_a_declared_type() {
    let none: Vec<String> = vec![];
    assert_eq!(column_type_for(DeclaredType::Varchar, &none), Some(ColumnType::String));
    assert_eq!(column_type_for(DeclaredType::Char, &none), Some(ColumnType::String));
    assert_eq!(column_type_for(DeclaredType::TinyInt, &none), Some(ColumnType::Integer));
    assert_eq!(column_type_for(DeclaredType::Dec, &none), Some(ColumnType::Integer));
    assert_eq!(column_type_for(DeclaredType::UnsignedInt8, &none), Some(ColumnType::Integer));
    assert_eq!(column_type_for(DeclaredType::Float8, &none), Some(ColumnType::Float));
    assert_eq!(column_type_for(DeclaredType::Time, &none), Some(ColumnType::Timestamp));
    assert_eq!(column_type_for(DeclaredType::Bool, &none), Some(ColumnType::Boolean));
    assert_eq!(column_type_for(DeclaredType::Other, &none), None);
    assert_eq!(column_type_for(DeclaredType::Custom, &none), None);
    assert_eq!(column_type_for(DeclaredType::Custom, &vec!["longtext".to_string()]), Some(ColumnType::String));
    assert_eq!(
        column_type_for(DeclaredType::Custom, &vec!["mediumtext".to_string(), "x".to_string()]),
        Some(ColumnType::String)
    );
    assert_eq!(column_type_for(DeclaredType::Custom, &vec!["LONGTEXT".to_string()]), None);
    assert_eq!(column_type_for(DeclaredType::Custom, &vec!["tinytext".to_string()]), None);
}

#[test]
fn negative_integer_in_a_row() {
    assert_eq!(
        rows_of("INSERT INTO `t` VALUES (1,'foo',NULL,'2012-01-02 12:55:22',-123);"),
        vec![vec![
            ColumnValue::Integer(1),
            ColumnValue::String("foo".into()),
            ColumnValue::Null,
            ColumnValue::String("2012-01-02 12:55:22".into()),
            ColumnValue::Integer(-123)
        ]]
    );
}

#[test]
fn decimal_point_makes_a_float() {
    assert_eq!(
        rows_of("INSERT INTO t VALUES (1.5, -2.25, 3., .5, 10, -10, 1.5e3, true, false);"),
        vec![vec![
            ColumnValue::Float("1.5".into()),
            ColumnValue::Float("-2.25".into()),
            ColumnValue::Float("3.".into()),
            ColumnValue::Float(".5".into()),
            ColumnValue::Integer(10),
            ColumnValue::Integer(-10),
            ColumnValue::Float("1.5e3".into()),
            ColumnValue::Boolean(true),
            ColumnValue::Boolean(false),
        ]]
    );
}

#[test]
fn batch_has_the_shape_of_the_statement() {
    let rows = rows_of("INSERT INTO t VALUES (1), (2, 'b'), (3, 'c', NULL), ('d');");
    let widths: Vec<usize> = rows.iter().map(|r| r.len()).collect();
    assert_eq!(widths, vec![1, 2, 3, 1]);
}

#[test]
fn numbers_on_plain_text() {
    assert_eq!(parse_number("42", false), Some(ColumnValue::Integer(42)));
    assert_eq!(parse_number("42", true), Some(ColumnValue::Integer(-42)));
    assert_eq!(parse_number("-42", true), Some(ColumnValue::Integer(42)));
    assert_eq!(parse_number("9223372036854775807", true), Some(ColumnValue::Integer(-9223372036854775807)));
    assert_eq!(parse_number("9223372036854775808", true), None);
    assert_eq!(parse_number("-9223372036854775808", false), Some(ColumnValue::Integer(i64::MIN)));
    assert_eq!(parse_number("-9223372036854775808", true), None);
    assert_eq!(parse_number("4.25", false), Some(ColumnValue::Float("4.25".into())));
    assert_eq!(parse_number("4.25", true), Some(ColumnValue::Float("-4.25".into())));
    assert_eq!(parse_number("-4.25", true), Some(ColumnValue::Float("4.25".into())));
    assert_eq!(parse_number("+4.25", true), Some(ColumnValue::Float("-4.25".into())));
    assert_eq!(parse_number(".", false), None);
    assert_eq!(parse_number("1.2.3", false), None);
    assert_eq!(parse_number("", false), None);
    assert_eq!(parse_number("1e3", false), None);
}

#[test]
fn values_on_plain_expressions() {
    assert_eq!(column_value(ValueExpr::Number("7".into())), Ok(ColumnValue::Integer(7)));
    assert_eq!(column_value(ValueExpr::NegatedNumber("7".into())), Ok(ColumnValue::Integer(-7)));
    assert_eq!(column_value(ValueExpr::NegatedNumber("7.0".into())), Ok(ColumnValue::Float("-7.0".into())));
    assert_eq!(column_value(ValueExpr::SingleQuoted("7".into())), Ok(ColumnValue::String("7".into())));
    assert_eq!(column_value(ValueExpr::Boolean(true)), Ok(ColumnValue::Boolean(true)));
    assert_eq!(column_value(ValueExpr::Null), Ok(ColumnValue::Null));
    assert_eq!(column_value(ValueExpr::Unsupported), Err(ValueError::Unsupported));
    assert_eq!(column_value(ValueExpr::Number("7x".into())), Err(ValueError::BadNumber));
}

#[test]
fn anything_else_is_no_operation() {
    assert_eq!(parse_line("").unwrap(), Line::NOP);
    assert_eq!(parse_line(";").unwrap(), Line::NOP);
    assert_eq!(parse_line("DROP TABLE IF EXISTS `user`;").unwrap(), Line::NOP);
    assert_eq!(parse_line("LOCK TABLES `user` WRITE;").unwrap(), Line::NOP);
    assert_eq!(parse_line("SELECT 1;").unwrap(), Line::NOP);
}

#[test]
fn first_part_of_a_qualified_name_is_the_table() {
    match parse_line("INSERT INTO `db`.`user` VALUES (1);").unwrap() {
        Line::InsertInto(name, _) => assert_eq!(name, "db"),
        other => panic!("{other:?} is no insert"),
    }
}

#[test]
fn text_that_the_grammar_rejects() {
    assert_eq!(parse_line("CREATE TABLE (;"), Err(ParseError::Syntax));
    assert_eq!(parse_line("INSERT INTO t VALUES ('unterminated);"), Err(ParseError::Syntax));
}

#[test]
fn more_than_one_statement() {
    assert_eq!(parse_line("SELECT 1; SELECT 2;"), Err(ParseError::TooManyStatements));
}

#[test]
fn statement_without_table_name() {
    let stmt = CreateTableBuilder::new(ObjectName(vec![])).build();
    assert_eq!(line_of_statement(&stmt), Err(ParseError::MissingTableName));
}

#[test]
fn column_of_a_type_without_logical_type() {
    assert_eq!(
        parse_line("CREATE TABLE t (a int, b blob, c json);"),
        Err(ParseError::UnsupportedType { column: 1 })
    );
    assert_eq!(
        parse_line("CREATE TABLE t (a tinytext);"),
        Err(ParseError::UnsupportedType { column: 0 })
    );
}

#[test]
fn insert_from_another_source() {
    assert_eq!(parse_line("INSERT INTO t SELECT * FROM u;"), Err(ParseError::NotValues));
}

#[test]
fn value_that_is_no_literal() {
    assert_eq!(
        parse_line("INSERT INTO t VALUES (1, 2), (3, NOW());"),
        Err(ParseError::UnsupportedValue { row: 1, column: 1 })
    );
    assert_eq!(
        parse_line("INSERT INTO t VALUES (-'a');"),
        Err(ParseError::UnsupportedValue { row: 0, column: 0 })
    );
    assert_eq!(
        parse_line("INSERT INTO t VALUES (+1);"),
        Err(ParseError::UnsupportedValue { row: 0, column: 0 })
    );
}

#[test]
fn number_out_of_range() {
    assert_eq!(
        parse_line("INSERT INTO t VALUES (1, 99999999999999999999);"),
        Err(ParseError::BadNumber { row: 0, column: 1 })
    );
    assert_eq!(
        parse_line("INSERT INTO t VALUES (-9223372036854775808);"),
        Err(ParseError::BadNumber { row: 0, column: 0 })
    );
    assert_eq!(
        parse_line("INSERT INTO t VALUES (1e3);"),
        Err(ParseError::BadNumber { row: 0, column: 0 })
    );
}

#[test]
fn first_error_in_reading_order_is_reported() {
    assert_eq!(
        parse_line("INSERT INTO t VALUES (1, NOW()), (99999999999999999999, 2);"),
        Err(ParseError::UnsupportedValue { row: 0, column: 1 })
    );
}

#[test]
fn string_and_char_types_are_text() {
    assert_eq!(
        schema_of("CREATE TABLE t (a string, b char, c char(12) NOT NULL);"),
        vec![
            ("a".to_string(), true, ColumnType::String),
            ("b".to_string(), true, ColumnType::String),
            ("c".to_string(), false, ColumnType::String),
        ]
    );
}

fn definition_of(columns: &[(String, bool, ColumnType)]) -> String {
    let written: Vec<String> = columns
        .iter()
        .map(|(name, nullable, column_type)| {
            let declared = match column_type {
                ColumnType::String => "text",
                ColumnType::Integer => "bigint",
                ColumnType::Float => "double",
                ColumnType::Timestamp => "timestamp",
                ColumnType::Boolean => "boolean",
            };
            let option = if *nullable { " NULL" } else { " NOT NULL" };
            format!("`{name}` {declared}{option}")
        })
        .collect();
    format!("CREATE TABLE `t` ({});", written.join(","))
}

#[test]
fn reparsing_the_text_of_a_schema_gives_it_back() {
    let columns = vec![
        ("id".to_string(), false, ColumnType::Integer),
        ("shortName".to_string(), false, ColumnType::String),
        ("with space".to_string(), true, ColumnType::String),
        ("ratio".to_string(), true, ColumnType::Float),
        ("registrationDate".to_string(), false, ColumnType::Timestamp),
        ("excluded".to_string(), true, ColumnType::Boolean),
        ("select".to_string(), false, ColumnType::Boolean),
        ("é'\"(,);--".to_string(), true, ColumnType::Integer),
    ];
    for width in 1..=columns.len() {
        let schema = &columns[..width];
        match parse_line(&definition_of(schema)).unwrap() {
            Line::CreateTable(name, parsed) => {
                assert_eq!(name, "t");
                let seen: Vec<(String, bool, ColumnType)> =
                    parsed.0.into_iter().map(|c| (c.column_name, c.nullable, c.column_type)).collect();
                assert_eq!(seen, schema);
            }
            other => panic!("{other:?} is no table definition"),
        }
    }
    for column_type in [
        ColumnType::String,
        ColumnType::Integer,
        ColumnType::Float,
        ColumnType::Timestamp,
        ColumnType::Boolean,
    ] {
        for nullable in [true, false] {
            let one = vec![("c".to_string(), nullable, column_type)];
            assert_eq!(schema_of(&definition_of(&one)), one);
        }
    }
}

#[test]
fn what_the_grammar_says_against_a_text() {
    let message = syntax_error("CREATE TABLE (;").unwrap();
    assert!(message.contains("Expected"), "{message}");
    assert_eq!(syntax_error("CREATE TABLE t (a int);"), None);
    assert_eq!(syntax_error("SELECT 'unterminated"), None);
    assert_eq!(syntax_error("SELECT TOP 1.5 * FROM t"), None);
}
