use arrow::datatypes::{DataType, TimeUnit};
use dump2parquet::columns::{Column, FloatCell};
use dump2parquet::line_parser::parse_line;
use dump2parquet::parquet_writer::{
    Compression, CurrentParquetWriter, ParquetWriter, WriterAction, WriterError,
};
use dump2parquet::schema::{ColumnDef, ColumnType, ColumnValue, Line, Schema};

fn column(name: &str, nullable: bool, column_type: ColumnType) -> ColumnDef {
    ColumnDef { column_name: name.to_string(), nullable, column_type }
}

fn text(s: &str) -> ColumnValue {
    ColumnValue::String(s.to_string())
}

fn table(name: &str, columns: Vec<ColumnDef>) -> CurrentParquetWriter {
    CurrentParquetWriter { row_count: 0, table_name: name.to_string(), schema: Schema(columns) }
}

fn two_columns() -> Vec<ColumnDef> {
    vec![column("id", false, ColumnType::Integer), column("name", true, ColumnType::String)]
}

fn opened(action: &WriterAction) -> Option<(bool, String)> {
    match action {
        WriterAction::Open { close_previous, file_name, .. } => Some((*close_previous, file_name.clone())),
        _ => None,
    }
}

fn appended(action: WriterAction) -> Vec<Column> {
    match action {
        WriterAction::Append { columns } => columns,
        _ => panic!("no batch is appended"),
    }
}

#[test]
fn columnar_schema_of_a_table() {
    let schema = Schema(vec![
        column("Id", false, ColumnType::Integer),
        column("shortName", false, ColumnType::String),
        column("RATIO", true, ColumnType::Float),
        column("registrationDate", true, ColumnType::Timestamp),
    ]);
    assert!(schema.supported());
    let fields = schema.to_arrow_schema();
    let seen: Vec<(String, DataType, bool)> = fields
        .iter()
        .map(|f| (f.name().clone(), f.data_type().clone(), f.is_nullable()))
        .collect();
    assert_eq!(
        seen,
        vec![
            ("id".to_string(), DataType::Int64, false),
            ("shortname".to_string(), DataType::Utf8, false),
            ("ratio".to_string(), DataType::Float64, true),
            ("registrationdate".to_string(), DataType::Timestamp(TimeUnit::Second, None), true),
        ]
    );
    assert_eq!(Schema(vec![]).to_arrow_schema().len(), 0);
}

#[test]
fn boolean_column_has_no_columnar_type() {
    let schema = Schema(vec![column("id", false, ColumnType::Integer), column("ok", true, ColumnType::Boolean)]);
    assert!(!schema.supported());
    let mut writer = ParquetWriter::new();
    let res = writer.new_line(Line::CreateTable("t".to_string(), schema));
    assert!(matches!(res, Err(WriterError::UnsupportedType)));
    assert!(writer.current_writer.is_none());
}

#[test]
fn one_empty_column_for_each_column_of_the_schema() {
    let current = table(
        "t",
        vec![
            column("a", true, ColumnType::String),
            column("b", true, ColumnType::Integer),
            column("c", true, ColumnType::Float),
            column("d", true, ColumnType::Timestamp),
            column("e", true, ColumnType::Boolean),
        ],
    );
    assert_eq!(
        current.array_builders(10),
        vec![
            Column::String(vec![]),
            Column::Integer(vec![]),
            Column::Float(vec![]),
            Column::Timestamp(vec![]),
            Column::Boolean(vec![]),
        ]
    );
}

#[test]
fn rows_become_typed_columns() {
    let current = table(
        "t",
        vec![
            column("id", false, ColumnType::Integer),
            column("s", true, ColumnType::String),
            column("x", true, ColumnType::String),
            column("t", true, ColumnType::Timestamp),
            column("n", true, ColumnType::Integer),
            column("f", true, ColumnType::Float),
        ],
    );
    let rows = vec![
        vec![
            ColumnValue::Integer(1),
            text("foo"),
            ColumnValue::Null,
            text("2012-01-02 12:55:22"),
            ColumnValue::Integer(-123),
            ColumnValue::Integer(7),
        ],
        vec![
            ColumnValue::Integer(2),
            ColumnValue::Null,
            text("bar"),
            ColumnValue::Null,
            ColumnValue::Null,
            ColumnValue::Float("0.5".into()),
        ],
    ];
    assert_eq!(
        current.write_rows(rows),
        Ok(vec![
            Column::Integer(vec![Some(1), Some(2)]),
            Column::String(vec![Some("foo".to_string()), None]),
            Column::String(vec![None, Some("bar".to_string())]),
            Column::Timestamp(vec![Some(1325508922), None]),
            Column::Integer(vec![Some(-123), None]),
            Column::Float(vec![Some(FloatCell::Widened(7)), Some(FloatCell::Literal("0.5".to_string()))]),
        ])
    );
}

#[test]
fn batch_of_no_rows() {
    let current = table("t", two_columns());
    assert_eq!(current.write_rows(vec![]), Ok(vec![Column::Integer(vec![]), Column::String(vec![])]));
    assert_eq!(table("t", vec![]).write_rows(vec![vec![], vec![]]), Ok(vec![]));
}

#[test]
fn row_of_the_wrong_width() {
    let current = table("t", two_columns());
    assert_eq!(
        current.write_rows(vec![vec![ColumnValue::Integer(1), text("a")], vec![ColumnValue::Integer(2)]]),
        Err(WriterError::WrongWidth { row: 1 })
    );
    assert_eq!(
        current.write_rows(vec![vec![ColumnValue::Integer(1), text("a"), text("b")]]),
        Err(WriterError::WrongWidth { row: 0 })
    );
    assert_eq!(
        current.write_rows(vec![vec![text("wrong"), text("a"), text("b")]]),
        Err(WriterError::WrongWidth { row: 0 })
    );
}

#[test]
fn value_of_the_wrong_tag() {
    let current = table("t", two_columns());
    assert_eq!(
        current.write_rows(vec![
            vec![ColumnValue::Integer(1), text("a")],
            vec![ColumnValue::Integer(2), ColumnValue::Integer(3)],
            vec![text("x"), text("a")],
        ]),
        Err(WriterError::WrongType { row: 1, column: 1 })
    );
}

#[test]
fn timestamp_that_cannot_be_read() {
    let current = table("t", vec![column("at", true, ColumnType::Timestamp)]);
    assert_eq!(
        current.write_rows(vec![vec![text("2012-01-02 12:55:22")], vec![text("2012/01/02")]]),
        Err(WriterError::BadTimestamp { row: 1, column: 0 })
    );
    assert_eq!(
        current.write_rows(vec![vec![text("2012-02-31 12:55:22")]]),
        Err(WriterError::NoSuchTime { row: 0, column: 0 })
    );
}

#[test]
fn definition_opens_the_file_of_its_table() {
    let mut writer = ParquetWriter::new();
    assert!(writer.current_writer.is_none());
    let action = writer.new_line(Line::CreateTable("user".to_string(), Schema(two_columns()))).unwrap();
    assert_eq!(opened(&action), Some((false, "user.parquet".to_string())));
    match action {
        WriterAction::Open { fields, compression, .. } => {
            assert_eq!(compression, Compression::Snappy);
            assert_eq!(fields.len(), 2);
            assert_eq!(fields[0].name(), "id");
            assert_eq!(fields[1].name(), "name");
        }
        _ => panic!("no file is opened"),
    }
    let current = writer.current_writer.as_ref().unwrap();
    assert_eq!(current.table_name, "user");
    assert_eq!(current.row_count, 0);
    assert_eq!(current.schema, Schema(two_columns()));
}

#[test]
fn next_definition_closes_the_open_encoder() {
    let mut writer = ParquetWriter::new();
    writer.new_line(Line::CreateTable("a".to_string(), Schema(two_columns()))).unwrap();
    let action = writer.new_line(Line::CreateTable("b".to_string(), Schema(vec![]))).unwrap();
    assert_eq!(opened(&action), Some((true, "b.parquet".to_string())));
    assert_eq!(writer.current_writer.as_ref().unwrap().table_name, "b");
}

#[test]
fn insert_before_any_definition_is_dropped() {
    let mut writer = ParquetWriter::new();
    let action = writer.new_line(Line::InsertInto("t".to_string(), vec![vec![ColumnValue::Integer(1)]])).unwrap();
    assert!(matches!(action, WriterAction::Discard));
    assert!(writer.current_writer.is_none());
    assert!(matches!(writer.finish(), WriterAction::Nothing));
}

#[test]
fn cross_table_discard() {
    let mut writer = ParquetWriter::new();
    let first = writer.new_line(Line::CreateTable("A".to_string(), Schema(two_columns()))).unwrap();
    assert_eq!(opened(&first), Some((false, "A.parquet".to_string())));
    let second = writer
        .new_line(Line::InsertInto("B".to_string(), vec![vec![ColumnValue::Integer(9), text("b")]]))
        .unwrap();
    assert!(matches!(second, WriterAction::Discard));
    assert_eq!(writer.current_writer.as_ref().unwrap().row_count, 0);
    let third = writer
        .new_line(Line::InsertInto(
            "A".to_string(),
            vec![vec![ColumnValue::Integer(1), text("a")], vec![ColumnValue::Integer(2), ColumnValue::Null]],
        ))
        .unwrap();
    assert_eq!(
        appended(third),
        vec![Column::Integer(vec![Some(1), Some(2)]), Column::String(vec![Some("a".to_string()), None])]
    );
    assert_eq!(writer.current_writer.as_ref().unwrap().row_count, 2);
    assert_eq!(writer.current_writer.as_ref().unwrap().table_name, "A");
}

#[test]
fn table_names_are_compared_exactly() {
    let mut writer = ParquetWriter::new();
    writer.new_line(Line::CreateTable("user".to_string(), Schema(two_columns()))).unwrap();
    let action = writer
        .new_line(Line::InsertInto("User".to_string(), vec![vec![ColumnValue::Integer(1), text("a")]]))
        .unwrap();
    assert!(matches!(action, WriterAction::Discard));
}

#[test]
fn end_of_stream_close() {
    let mut writer = ParquetWriter::new();
    let mut actions = Vec::new();
    for statement in [
        "CREATE TABLE `t` (`id` bigint NOT NULL, `name` varchar(10));",
        "INSERT INTO `t` VALUES (1,'a'),(2,'b'),(3,NULL);",
    ] {
        actions.push(writer.new_line(parse_line(statement).unwrap()).unwrap());
    }
    actions.push(writer.finish());
    assert_eq!(opened(&actions[0]), Some((false, "t.parquet".to_string())));
    assert!(matches!(actions[2], WriterAction::Close));
    assert!(writer.current_writer.is_none());
    let columns = appended(actions.remove(1));
    assert_eq!(columns.len(), 2);
    assert_eq!(columns[0].len(), 3);
    assert_eq!(columns[1], Column::String(vec![Some("a".to_string()), Some("b".to_string()), None]));
    assert!(matches!(writer.finish(), WriterAction::Nothing));
}

#[test]
fn no_operation_changes_nothing() {
    let mut writer = ParquetWriter::new();
    assert!(matches!(writer.new_line(Line::NOP).unwrap(), WriterAction::Nothing));
    assert!(writer.current_writer.is_none());
    writer.new_line(Line::CreateTable("t".to_string(), Schema(two_columns()))).unwrap();
    assert!(matches!(writer.new_line(Line::NOP).unwrap(), WriterAction::Nothing));
    assert_eq!(writer.current_writer.as_ref().unwrap().table_name, "t");
}

#[test]
fn failed_batch_leaves_the_writer_as_it_was() {
    let mut writer = ParquetWriter::new();
    writer.new_line(Line::CreateTable("t".to_string(), Schema(two_columns()))).unwrap();
    writer
        .new_line(Line::InsertInto("t".to_string(), vec![vec![ColumnValue::Integer(1), text("a")]]))
        .unwrap();
    let res = writer.new_line(Line::InsertInto("t".to_string(), vec![vec![text("x"), text("a")]]));
    assert!(matches!(res, Err(WriterError::WrongType { row: 0, column: 0 })));
    let current = writer.current_writer.as_ref().unwrap();
    assert_eq!(current.row_count, 1);
    assert_eq!(current.table_name, "t");
}

#[test]
fn row_count_stops_at_the_largest_number() {
    let mut writer = ParquetWriter {
        current_writer: Some(CurrentParquetWriter {
            row_count: usize::MAX - 1,
            table_name: "t".to_string(),
            schema: Schema(vec![]),
        }),
    };
    writer.new_line(Line::InsertInto("t".to_string(), vec![vec![], vec![], vec![]])).unwrap();
    assert_eq!(writer.current_writer.as_ref().unwrap().row_count, usize::MAX);
}

#[test]
fn one_file_for_each_definition() {
    let mut writer = ParquetWriter::new();
    let mut files = Vec::new();
    for statement in [
        "DROP TABLE IF EXISTS `a`;",
        "CREATE TABLE `a` (`id` int);",
        "INSERT INTO `a` VALUES (1);",
        "INSERT INTO `b` VALUES (1);",
        "CREATE TABLE `b` (`id` int);",
        "INSERT INTO `b` VALUES (1),(2);",
        "CREATE TABLE `c` (`id` int);",
    ] {
        if let Some((_, file)) = opened(&writer.new_line(parse_line(statement).unwrap()).unwrap()) {
            files.push(file);
        }
    }
    assert_eq!(files, vec!["a.parquet".to_string(), "b.parquet".to_string(), "c.parquet".to_string()]);
}
