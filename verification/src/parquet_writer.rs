//! The columnar writer: for each parsed statement it decides what is to be done
//! with the encoder, and builds the typed columns of each batch of rows.

use vstd::prelude::*;
use crate::arrow_schema::{all_supported, field_of, fields_of, FieldSpec};
use crate::columns::{coerce, CellError, CellSpec, Column};
use crate::schema::{ColumnSpec, ColumnValue, Line, LineSpec, Schema, ValueSpec, row_view, rows_view};
use crate::text::same_text;
use arrow::datatypes::Fields;
use vstd::string::StringExecFns;
use vstd::set_lib::lemma_map_size;
use vstd::seq_lib::seq_to_set_is_finite;

verus! {

/// Why the writer cannot go on. Each of these is fatal.
#[derive(Clone, Copy, Debug, PartialEq, Eq, Structural)]
pub enum WriterError {
    /// a column of the table has a type that has no columnar type
    UnsupportedType,
    /// the row at this position has not one value for each column
    WrongWidth { row: usize },
    /// the value at this position has a tag that its column does not accept
    WrongType { row: usize, column: usize },
    /// the text at this position, in a TIMESTAMP column, does not follow the
    /// fixed-width pattern
    BadTimestamp { row: usize, column: usize },
    /// the text at this position, in a TIMESTAMP column, names a time that does
    /// not exist
    NoSuchTime { row: usize, column: usize },
}

/// The error of a cell, with its place.
pub open spec fn placed(e: CellError, row: int, column: int) -> WriterError {
    match e {
        CellError::WrongType => WriterError::WrongType { row: row as usize, column: column as usize },
        CellError::BadTimestamp => WriterError::BadTimestamp {
            row: row as usize,
            column: column as usize,
        },
        CellError::NoSuchTime => WriterError::NoSuchTime {
            row: row as usize,
            column: column as usize,
        },
    }
}

/// The first `n` cells of row `r`, or the error of the first value among them that
/// cannot stand in its column.
pub open spec fn leading_cells(schema: Seq<ColumnSpec>, row: Seq<ValueSpec>, r: int, n: int) -> Result<
    Seq<CellSpec>,
    WriterError,
>
    decreases n,
{
    if n <= 0 {
        Ok(Seq::empty())
    } else {
        match leading_cells(schema, row, r, n - 1) {
            Err(e) => Err(e),
            Ok(head) => match coerce(schema[n - 1].column_type, row[n - 1]) {
                Ok(cell) => Ok(head.push(cell)),
                Err(e) => Err(placed(e, r, n - 1)),
            },
        }
    }
}

/// The cells of row `r`: one for each column, in order. A row that has not one
/// value for each column is refused before any of its values is looked at.
pub open spec fn row_cells(schema: Seq<ColumnSpec>, row: Seq<ValueSpec>, r: int) -> Result<
    Seq<CellSpec>,
    WriterError,
> {
    if row.len() != schema.len() {
        Err(WriterError::WrongWidth { row: r as usize })
    } else {
        leading_cells(schema, row, r, row.len() as int)
    }
}

/// The cells of a batch, row by row, or the error of the first row, and in it of
/// the first value, that cannot be written.
pub open spec fn batch_cells(schema: Seq<ColumnSpec>, rows: Seq<Seq<ValueSpec>>) -> Result<
    Seq<Seq<CellSpec>>,
    WriterError,
>
    decreases rows.len(),
{
    if rows.len() == 0 {
        Ok(Seq::empty())
    } else {
        match batch_cells(schema, rows.drop_last()) {
            Err(e) => Err(e),
            Ok(head) => match row_cells(schema, rows.last(), rows.len() - 1) {
                Ok(cells) => Ok(head.push(cells)),
                Err(e) => Err(e),
            },
        }
    }
}

/// The cells of column `c` in a batch given row by row.
pub open spec fn column_cells(cells: Seq<Seq<CellSpec>>, c: int) -> Seq<CellSpec> {
    cells.map_values(|row: Seq<CellSpec>| row[c])
}

/// Whether `columns` are the columns of `schema` and hold the batch `cells`.
pub open spec fn holds_batch(columns: Seq<Column>, schema: Seq<ColumnSpec>, cells: Seq<Seq<CellSpec>>) -> bool {
    &&& columns.len() == schema.len()
    &&& forall|c: int|
        0 <= c < schema.len() ==> (#[trigger] columns[c]).column_type() == schema[c].column_type
            && columns[c].cells() == column_cells(cells, c)
}

/// The first `n` cells of a row are `n` cells.
pub proof fn lemma_leading_cells_count(schema: Seq<ColumnSpec>, row: Seq<ValueSpec>, r: int, n: int)
    requires
        0 <= n,
        leading_cells(schema, row, r, n) is Ok,
    ensures
        leading_cells(schema, row, r, n)->Ok_0.len() == n,
    decreases n,
{
    if n > 0 {
        lemma_leading_cells_count(schema, row, r, n - 1);
    }
}

/// A batch that can be written is rectangular: every row has exactly one value
/// for each column of the schema, and gives one cell for each.
pub proof fn lemma_batch_is_rectangular(schema: Seq<ColumnSpec>, rows: Seq<Seq<ValueSpec>>)
    requires
        batch_cells(schema, rows) is Ok,
    ensures
        batch_cells(schema, rows)->Ok_0.len() == rows.len(),
        forall|r: int| 0 <= r < rows.len() ==> (#[trigger] rows[r]).len() == schema.len(),
        forall|r: int|
            0 <= r < rows.len() ==> (#[trigger] batch_cells(schema, rows)->Ok_0[r]).len()
                == schema.len(),
    decreases rows.len(),
{
    if rows.len() > 0 {
        lemma_batch_is_rectangular(schema, rows.drop_last());
        lemma_leading_cells_count(schema, rows.last(), rows.len() - 1, rows.last().len() as int);
        let head = batch_cells(schema, rows.drop_last())->Ok_0;
        assert forall|r: int| 0 <= r < rows.len() implies (#[trigger] rows[r]).len()
            == schema.len() by {
            if r < rows.len() - 1 {
                assert(rows.drop_last()[r] == rows[r]);
            }
        }
        assert forall|r: int| 0 <= r < rows.len() implies (#[trigger] batch_cells(
            schema,
            rows,
        )->Ok_0[r]).len() == schema.len() by {
            if r < rows.len() - 1 {
                assert(batch_cells(schema, rows)->Ok_0[r] == head[r]);
            }
        }
    }
}

/// An error among the first cells of a row is the error of the row.
pub proof fn lemma_cell_error_stays(schema: Seq<ColumnSpec>, row: Seq<ValueSpec>, r: int, n: int, m: int)
    requires
        0 <= n <= m,
        leading_cells(schema, row, r, n) is Err,
    ensures
        leading_cells(schema, row, r, m) == leading_cells(schema, row, r, n),
    decreases m - n,
{
    if n < m {
        lemma_cell_error_stays(schema, row, r, n, m - 1);
    }
}

/// An error among the first rows of a batch is the error of the batch.
pub proof fn lemma_batch_error_stays(schema: Seq<ColumnSpec>, rows: Seq<Seq<ValueSpec>>, n: int)
    requires
        0 <= n <= rows.len(),
        batch_cells(schema, rows.take(n)) is Err,
    ensures
        batch_cells(schema, rows) == batch_cells(schema, rows.take(n)),
    decreases rows.len() - n,
{
    if n == rows.len() {
        assert(rows.take(n) =~= rows);
    } else {
        assert(rows.take(n + 1).drop_last() =~= rows.take(n));
        lemma_batch_error_stays(schema, rows, n + 1);
    }
}

/// The places of a cell error, as an error of the writer.
fn place(e: CellError, row: usize, column: usize) -> (res: WriterError)
    ensures
        res == placed(e, row as int, column as int),
{
    match e {
        CellError::WrongType => WriterError::WrongType { row, column },
        CellError::BadTimestamp => WriterError::BadTimestamp { row, column },
        CellError::NoSuchTime => WriterError::NoSuchTime { row, column },
    }
}

/// Appends row `r` to the columns, one value to each, or says which value cannot
/// stand in its column.
fn append_row(columns: &mut Vec<Column>, schema: &Schema, row: Vec<ColumnValue>, r: usize) -> (res: Result<(), WriterError>)
    requires
        old(columns)@.len() == schema@.len(),
        forall|c: int|
            0 <= c < schema@.len() ==> (#[trigger] old(columns)@[c]).column_type()
                == schema@[c].column_type,
    ensures
        final(columns)@.len() == schema@.len(),
        forall|c: int|
            0 <= c < schema@.len() ==> (#[trigger] final(columns)@[c]).column_type()
                == schema@[c].column_type,
        match row_cells(schema@, row_view(row), r as int) {
            Ok(cells) => res is Ok && forall|c: int|
                0 <= c < schema@.len() ==> (#[trigger] final(columns)@[c]).cells() == old(
                    columns,
                )@[c].cells().push(cells[c]),
            Err(e) => res == Err::<(), WriterError>(e),
        },
{
    let ghost values = row_view(row);
    let ghost start = columns@;
    if row.len() != schema.0.len() {
        return Err(WriterError::WrongWidth { row: r });
    }
    let width = row.len();
    let ghost mut head: Seq<CellSpec> = Seq::empty();
    let mut c: usize = 0;
    for value in it: row
        invariant
            c == it.index(),
            it.seq().len() == width,
            width == schema@.len(),
            values == it.seq().map_values(|v: ColumnValue| v@),
            columns@.len() == width,
            start.len() == width,
            forall|k: int|
                0 <= k < width ==> (#[trigger] columns@[k]).column_type() == schema@[k].column_type,
            leading_cells(schema@, values, r as int, c as int) == Ok::<Seq<CellSpec>, WriterError>(
                head,
            ),
            head.len() == c,
            forall|k: int| 0 <= k < c ==> (#[trigger] columns@[k]).cells() == start[k].cells().push(head[k]),
            forall|k: int| c <= k < width ==> (#[trigger] columns@[k]).cells() == start[k].cells(),
    {
        assert(values[c as int] == value@);
        match columns[c].append(value) {
            Ok(()) => {
                proof {
                    head = head.push(coerce(schema@[c as int].column_type, value@)->Ok_0);
                }
            },
            Err(e) => {
                proof {
                    lemma_cell_error_stays(schema@, values, r as int, c + 1, width as int);
                }
                return Err(place(e, r, c));
            },
        }
        c += 1;
    }
    Ok(())
}

/// The table whose encoder is open.
#[derive(Debug)]
pub struct CurrentParquetWriter {
    /// how many rows were appended so far; the count stops at the largest number
    /// that the machine can hold
    pub row_count: usize,
    pub table_name: String,
    pub schema: Schema,
}

/// What a `CurrentParquetWriter` stands for.
pub struct OpenTable {
    pub row_count: nat,
    pub table_name: Seq<char>,
    pub schema: Seq<ColumnSpec>,
}

impl View for CurrentParquetWriter {
    type V = OpenTable;

    open spec fn view(&self) -> OpenTable {
        OpenTable {
            row_count: self.row_count as nat,
            table_name: self.table_name@,
            schema: self.schema@,
        }
    }
}

impl CurrentParquetWriter {
    /// One empty column for each column of the schema, each with room for
    /// `capacity` cells.
    pub fn array_builders(&self, capacity: usize) -> (columns: Vec<Column>)
        ensures
            holds_batch(columns@, self.schema@, Seq::empty()),
    {
        let mut columns: Vec<Column> = Vec::new();
        let mut c: usize = 0;
        while c < self.schema.0.len()
            invariant
                c <= self.schema.0.len(),
                columns@.len() == c,
                forall|k: int|
                    0 <= k < c ==> (#[trigger] columns@[k]).column_type()
                        == self.schema@[k].column_type && columns@[k].cells() == Seq::<
                        CellSpec,
                    >::empty(),
            decreases self.schema.0.len() - c,
        {
            assert(self.schema@[c as int] == self.schema.0@[c as int]@);
            columns.push(Column::with_capacity(self.schema.0[c].column_type, capacity));
            c += 1;
        }
        assert forall|k: int| 0 <= k < self.schema@.len() implies (#[trigger] columns@[k]).cells()
            == column_cells(Seq::empty(), k) by {
            assert(column_cells(Seq::empty(), k) =~= Seq::<CellSpec>::empty());
        }
        columns
    }

    /// Builds the typed columns of one batch: each value goes to the column of its
    /// position, as the cell that the column's type makes of it. The first row, and
    /// in it the first value, that cannot be written is reported.
    pub fn write_rows(&self, rows: Vec<Vec<ColumnValue>>) -> (res: Result<Vec<Column>, WriterError>)
        ensures
            match batch_cells(self.schema@, rows_view(rows)) {
                Ok(cells) => res is Ok && holds_batch(res->Ok_0@, self.schema@, cells),
                Err(e) => res is Err && res->Err_0 == e,
            },
    {
        let ghost all = rows_view(rows);
        let count = rows.len();
        let mut columns = self.array_builders(count);
        let ghost mut done: Seq<Seq<CellSpec>> = Seq::empty();
        let mut r: usize = 0;
        assert(all.take(0) =~= Seq::<Seq<ValueSpec>>::empty());
        for row in it: rows
            invariant
                r == it.index(),
                it.seq().len() == count,
                all == it.seq().map_values(|row: Vec<ColumnValue>| row_view(row)),
                batch_cells(self.schema@, all.take(r as int)) == Ok::<Seq<Seq<CellSpec>>, WriterError>(
                    done,
                ),
                holds_batch(columns@, self.schema@, done),
        {
            let ghost before = columns@;
            proof {
                assert(all.take(r + 1).drop_last() =~= all.take(r as int));
                assert(all.take(r + 1).last() == row_view(row));
            }
            match append_row(&mut columns, &self.schema, row, r) {
                Ok(()) => {
                    proof {
                        let cells = row_cells(self.schema@, row_view(row), r as int)->Ok_0;
                        assert forall|c: int| 0 <= c < self.schema@.len() implies (
                        #[trigger] columns@[c]).cells() == column_cells(done.push(cells), c) by {
                            assert(before[c].cells() == column_cells(done, c));
                            assert(column_cells(done.push(cells), c) =~= column_cells(done, c).push(
                                cells[c],
                            ));
                        }
                        done = done.push(cells);
                    }
                },
                Err(e) => {
                    proof {
                        lemma_batch_error_stays(self.schema@, all, r + 1);
                    }
                    return Err(e);
                },
            }
            r += 1;
        }
        assert(all.take(r as int) =~= all);
        Ok(columns)
    }
}

/// How the encoder compresses.
#[derive(Clone, Copy, Debug, PartialEq, Eq, Structural)]
pub enum Compression {
    Snappy,
}

/// What is to be done with the encoder after a statement.
#[derive(Debug)]
pub enum WriterAction {
    /// nothing
    Nothing,
    /// the rows are for a table that is not open: report them and drop them
    Discard,
    /// close the open encoder where `close_previous` says so; then create the file
    /// `file_name` in the output directory and open an encoder over it, with these
    /// fields and this compression
    Open { close_previous: bool, file_name: String, fields: Fields, compression: Compression },
    /// append one record batch of these columns to the open encoder
    Append { columns: Vec<Column> },
    /// close the open encoder
    Close,
}

/// What a `WriterAction` stands for. An append is given by the schema and the
/// cells of the batch, row by row.
pub enum ActionSpec {
    Nothing,
    Discard,
    Open { close_previous: bool, file_name: Seq<char>, fields: Seq<FieldSpec> },
    Append { schema: Seq<ColumnSpec>, cells: Seq<Seq<CellSpec>> },
    Close,
}

/// Whether `action` is what `spec` describes.
pub open spec fn performs(action: WriterAction, spec: ActionSpec) -> bool {
    match (action, spec) {
        (WriterAction::Nothing, ActionSpec::Nothing) => true,
        (WriterAction::Discard, ActionSpec::Discard) => true,
        (
            WriterAction::Open { close_previous, file_name, fields, compression },
            ActionSpec::Open { close_previous: closes, file_name: name, fields: listed },
        ) => close_previous == closes && file_name@ == name && fields_of(fields) == listed
            && compression == Compression::Snappy,
        (WriterAction::Append { columns }, ActionSpec::Append { schema, cells }) => holds_batch(
            columns@,
            schema,
            cells,
        ),
        (WriterAction::Close, ActionSpec::Close) => true,
        _ => false,
    }
}

/// The name of the file of a table.
pub open spec fn file_name_of(table_name: Seq<char>) -> Seq<char> {
    table_name + ".parquet"@
}

/// The count of rows after `more` rows were appended.
pub open spec fn counted(row_count: nat, more: nat) -> nat {
    if row_count + more <= usize::MAX {
        row_count + more
    } else {
        usize::MAX as nat
    }
}

/// One step of the writer: the state after the statement, and what is to be done
/// with the encoder.
///
/// A table definition opens the encoder of its table, after closing the one that
/// is open. Rows go to the open encoder where they are for its table, and are
/// dropped where they are not. Anything else changes nothing.
pub open spec fn step(state: Option<OpenTable>, line: LineSpec) -> Result<
    (Option<OpenTable>, ActionSpec),
    WriterError,
> {
    match line {
        LineSpec::NOP => Ok((state, ActionSpec::Nothing)),
        LineSpec::CreateTable(table_name, schema) => if all_supported(schema) {
            Ok(
                (
                    Some(OpenTable { row_count: 0, table_name, schema }),
                    ActionSpec::Open {
                        close_previous: state is Some,
                        file_name: file_name_of(table_name),
                        fields: schema.map_values(|c: ColumnSpec| field_of(c)),
                    },
                ),
            )
        } else {
            Err(WriterError::UnsupportedType)
        },
        LineSpec::InsertInto(table_name, rows) => match state {
            Some(open) => if open.table_name == table_name {
                match batch_cells(open.schema, rows) {
                    Ok(cells) => Ok(
                        (
                            Some(
                                OpenTable {
                                    row_count: counted(open.row_count, rows.len()),
                                    table_name: open.table_name,
                                    schema: open.schema,
                                },
                            ),
                            ActionSpec::Append { schema: open.schema, cells },
                        ),
                    ),
                    Err(e) => Err(e),
                }
            } else {
                Ok((state, ActionSpec::Discard))
            },
            None => Ok((state, ActionSpec::Discard)),
        },
    }
}

/// The writer: at most one table is open at a time.
#[derive(Debug)]
pub struct ParquetWriter {
    pub current_writer: Option<CurrentParquetWriter>,
}

impl View for ParquetWriter {
    type V = Option<OpenTable>;

    open spec fn view(&self) -> Option<OpenTable> {
        match self.current_writer {
            Some(current) => Some(current@),
            None => None,
        }
    }
}

impl ParquetWriter {
    /// A writer with no open table.
    pub fn new() -> (writer: ParquetWriter)
        ensures
            writer@ is None,
    {
        ParquetWriter { current_writer: None }
    }

    /// Takes one parsed statement and says what is to be done with the encoder.
    /// After an error the writer is as it was.
    pub fn new_line(&mut self, line: Line) -> (res: Result<WriterAction, WriterError>)
        ensures
            match step(old(self)@, line@) {
                Ok((next, action)) => res is Ok && final(self)@ == next && performs(res->Ok_0, action),
                Err(e) => res is Err && res->Err_0 == e && final(self)@ == old(self)@,
            },
    {
        match line {
            Line::CreateTable(table_name, schema) => {
                if !schema.supported() {
                    return Err(WriterError::UnsupportedType);
                }
                let fields = schema.to_arrow_schema();
                let file_name = table_name.clone().concat(".parquet");
                let close_previous = self.current_writer.is_some();
                self.current_writer = Some(CurrentParquetWriter { row_count: 0, table_name, schema });
                Ok(
                    WriterAction::Open {
                        close_previous,
                        file_name,
                        fields,
                        compression: Compression::Snappy,
                    },
                )
            },
            Line::InsertInto(table_name, rows) => {
                let row_count = rows.len();
                assert(rows_view(rows).len() == row_count);
                match &mut self.current_writer {
                    Some(current) => {
                        if !same_text(current.table_name.as_str(), table_name.as_str()) {
                            return Ok(WriterAction::Discard);
                        }
                        match current.write_rows(rows) {
                            Ok(columns) => {
                                current.row_count = current.row_count.saturating_add(row_count);
                                Ok(WriterAction::Append { columns })
                            },
                            Err(e) => Err(e),
                        }
                    },
                    None => Ok(WriterAction::Discard),
                }
            },
            Line::NOP => Ok(WriterAction::Nothing),
        }
    }

    /// Ends the stream: the open encoder, if there is one, is to be closed, and no
    /// table is open afterwards.
    pub fn finish(&mut self) -> (action: WriterAction)
        ensures
            final(self)@ is None,
            old(self)@ is Some ==> action is Close,
            old(self)@ is None ==> action is Nothing,
    {
        let open = self.current_writer.is_some();
        self.current_writer = None;
        if open {
            WriterAction::Close
        } else {
            WriterAction::Nothing
        }
    }
}

/// What is to be done, step by step, for a run of statements, or the error of the
/// first step that fails.
pub open spec fn run(state: Option<OpenTable>, lines: Seq<LineSpec>) -> Result<Seq<ActionSpec>, WriterError>
    decreases lines.len(),
{
    if lines.len() == 0 {
        Ok(Seq::empty())
    } else {
        match step(state, lines[0]) {
            Err(e) => Err(e),
            Ok((next, action)) => match run(next, lines.drop_first()) {
                Ok(rest) => Ok(seq![action] + rest),
                Err(e) => Err(e),
            },
        }
    }
}

/// The names of the files that the actions create, in order.
pub open spec fn opened_files(actions: Seq<ActionSpec>) -> Seq<Seq<char>>
    decreases actions.len(),
{
    if actions.len() == 0 {
        Seq::empty()
    } else {
        match actions[0] {
            ActionSpec::Open { file_name, .. } => seq![file_name] + opened_files(
                actions.drop_first(),
            ),
            _ => opened_files(actions.drop_first()),
        }
    }
}

/// The names of the tables that the statements define, in order.
pub open spec fn created_tables(lines: Seq<LineSpec>) -> Seq<Seq<char>>
    decreases lines.len(),
{
    if lines.len() == 0 {
        Seq::empty()
    } else {
        match lines[0] {
            LineSpec::CreateTable(table_name, _) => seq![table_name] + created_tables(
                lines.drop_first(),
            ),
            _ => created_tables(lines.drop_first()),
        }
    }
}

/// How many batches the actions append.
pub open spec fn appended_batches(actions: Seq<ActionSpec>) -> nat
    decreases actions.len(),
{
    if actions.len() == 0 {
        0
    } else if actions[0] is Append {
        1 + appended_batches(actions.drop_first())
    } else {
        appended_batches(actions.drop_first())
    }
}

/// Every table definition creates the file of its table, and nothing else creates
/// a file: the files that a run creates are those of the tables that it defines, in
/// the order of the definitions.
pub proof fn lemma_one_file_per_definition(state: Option<OpenTable>, lines: Seq<LineSpec>)
    requires
        run(state, lines) is Ok,
    ensures
        opened_files(run(state, lines)->Ok_0) == created_tables(lines).map_values(
            |table_name: Seq<char>| file_name_of(table_name),
        ),
    decreases lines.len(),
{
    let named = |table_name: Seq<char>| file_name_of(table_name);
    if lines.len() == 0 {
        assert(created_tables(lines).map_values(named) =~= Seq::<Seq<char>>::empty());
    } else {
        let (next, action) = step(state, lines[0])->Ok_0;
        let rest = run(next, lines.drop_first())->Ok_0;
        lemma_one_file_per_definition(next, lines.drop_first());
        let actions = seq![action] + rest;
        assert(actions.drop_first() =~= rest);
        assert(actions[0] == action);
        let later = created_tables(lines.drop_first());
        match lines[0] {
            LineSpec::CreateTable(table_name, _) => {
                assert((seq![table_name] + later).map_values(named) =~= seq![
                    file_name_of(table_name),
                ] + later.map_values(named));
            },
            _ => {},
        }
    }
}

/// Two tables have the same file only where they have the same name.
pub proof fn lemma_file_names_differ(a: Seq<char>, b: Seq<char>)
    requires
        file_name_of(a) == file_name_of(b),
    ensures
        a == b,
{
    let suffix = ".parquet"@;
    assert(a.len() == b.len()) by {
        assert((a + suffix).len() == (b + suffix).len());
    }
    assert forall|i: int| 0 <= i < a.len() implies a[i] == b[i] by {
        assert((a + suffix)[i] == (b + suffix)[i]);
    }
    assert(a =~= b);
}

/// A run creates as many different files as it defines different tables.
pub proof fn lemma_files_count_definitions(state: Option<OpenTable>, lines: Seq<LineSpec>)
    requires
        run(state, lines) is Ok,
    ensures
        opened_files(run(state, lines)->Ok_0).to_set().len() == created_tables(lines).to_set().len(),
{
    let named = |table_name: Seq<char>| file_name_of(table_name);
    let tables = created_tables(lines);
    let files = opened_files(run(state, lines)->Ok_0);
    lemma_one_file_per_definition(state, lines);
    seq_to_set_is_finite(tables);
    tables.lemma_to_set_map_commutes(named);
    assert forall|a: Seq<char>, b: Seq<char>|
        tables.to_set().contains(a) && tables.to_set().contains(b) && #[trigger] named(a)
            == #[trigger] named(b) implies a == b by {
        lemma_file_names_differ(a, b);
    }
    lemma_map_size(tables.to_set(), files.to_set(), named);
}

/// Rows that come while no table is open are dropped: nothing is to be written and
/// no table is open afterwards.
pub proof fn lemma_rows_before_definition_are_dropped(table_name: Seq<char>, rows: Seq<Seq<ValueSpec>>)
    ensures
        step(None, LineSpec::InsertInto(table_name, rows)) == Ok::<
            (Option<OpenTable>, ActionSpec),
            WriterError,
        >((None, ActionSpec::Discard)),
{
}

/// A run that holds no table definition creates no file and appends nothing.
pub proof fn lemma_no_definition_no_output(lines: Seq<LineSpec>)
    requires
        forall|i: int| 0 <= i < lines.len() ==> !(#[trigger] lines[i] is CreateTable),
    ensures
        run(None, lines) is Ok,
        opened_files(run(None, lines)->Ok_0) == Seq::<Seq<char>>::empty(),
        appended_batches(run(None, lines)->Ok_0) == 0,
    decreases lines.len(),
{
    if lines.len() > 0 {
        assert(!(lines[0] is CreateTable));
        assert forall|i: int| 0 <= i < lines.drop_first().len() implies !(
        #[trigger] lines.drop_first()[i] is CreateTable) by {
            assert(lines.drop_first()[i] == lines[i + 1]);
        }
        lemma_no_definition_no_output(lines.drop_first());
        let (next, action) = step(None, lines[0])->Ok_0;
        let rest = run(None, lines.drop_first())->Ok_0;
        assert((seq![action] + rest).drop_first() =~= rest);
    }
}

/// Rows for another table than the open one are dropped, and the open table stays
/// as it is.
pub proof fn lemma_rows_for_another_table_are_dropped(
    open: OpenTable,
    table_name: Seq<char>,
    rows: Seq<Seq<ValueSpec>>,
)
    requires
        table_name != open.table_name,
    ensures
        step(Some(open), LineSpec::InsertInto(table_name, rows)) == Ok::<
            (Option<OpenTable>, ActionSpec),
            WriterError,
        >((Some(open), ActionSpec::Discard)),
{
}

} // verus!
