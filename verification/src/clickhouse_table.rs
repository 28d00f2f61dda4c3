//! A destination table: its name, its columns in the order of the `INSERT`,
//! and the statements that write rows into it.
use crate::clickhouse::{ClickhouseTableColumnRow, ColumnRowView};
use crate::column_type::{
    ColumnType,
    parse_column_type,
    parsed_column_type,
};
use crate::error::{Error, ErrorView};
use crate::find::{first_where, lemma_first_where, lemma_first_where_is};
use crate::text::{
    chars_of,
    count_char,
    join,
    join_with,
    lemma_count_concat,
    lemma_count_zero,
    same_text,
    text_of,
    texts,
};
use std::collections::BTreeMap;
use vstd::prelude::*;
use vstd::string::*;

verus! {

/// The two parts of a table's qualified name.
#[derive(Debug)]
pub struct ClickhouseTableParts {
    pub database: String,
    pub table: String,
}

/// The mathematical content of a [`ClickhouseTableParts`].
pub struct TablePartsView {
    pub database: Seq<char>,
    pub table: Seq<char>,
}

impl View for ClickhouseTableParts {
    type V = TablePartsView;

    open spec fn view(&self) -> TablePartsView {
        TablePartsView { database: self.database@, table: self.table@ }
    }
}

impl Clone for ClickhouseTableParts {
    fn clone(&self) -> (r: Self)
        ensures
            r == *self,
    {
        ClickhouseTableParts { database: self.database.clone(), table: self.table.clone() }
    }
}

/// The qualified name: database, a dot, table.
pub open spec fn qualified_name(parts: TablePartsView) -> Seq<char> {
    parts.database + seq!['.'] + parts.table
}

/// What is said of a table name that is not `<database>.<table_name>`.
pub open spec fn invalid_table_message() -> Seq<char> {
    "Invalid table definition. Must specify <database>.<table_name>."@
}

impl ClickhouseTableParts {
    /// Splits `entry` at its dot. A name with no dot, or with more than one,
    /// is refused; with exactly one, what stands before it is the database
    /// and what stands after it the table (either may be empty).
    pub fn from_string(entry: &str) -> (r: Result<ClickhouseTableParts, Error>)
        ensures
            r is Ok <==> count_char(entry@, '.') == 1,
            r matches Ok(parts) ==> {
                &&& entry@ == qualified_name(parts@)
                &&& !parts@.database.contains('.')
                &&& !parts@.table.contains('.')
            },
            r matches Err(e) ==> e@ == ErrorView::InvalidMappingConfig(invalid_table_message()),
    {
        let chars = chars_of(entry);
        let n = chars.len();
        let mut dots: usize = 0;
        let mut first: usize = 0;
        let mut i: usize = 0;
        while i < n
            invariant
                i <= n,
                n == chars@.len(),
                chars@ == entry@,
                dots == count_char(entry@.take(i as int), '.'),
                dots <= i,
                dots > 0 ==> first < i && entry@[first as int] == '.',
            decreases n - i,
        {
            assert(entry@.take(i + 1).drop_last() =~= entry@.take(i as int));
            if chars[i] == '.' {
                if dots == 0 {
                    first = i;
                }
                dots = dots + 1;
            }
            i = i + 1;
        }
        assert(entry@.take(n as int) =~= entry@);
        if dots != 1 {
            return Err(
                Error::InvalidMappingConfig(
                    "Invalid table definition. Must specify <database>.<table_name>.".to_owned(),
                ),
            );
        }
        let database = text_of(&chars, 0, first);
        let table = text_of(&chars, first + 1, n);
        proof {
            let head = entry@.subrange(0, first as int);
            let tail = entry@.subrange(first + 1, n as int);
            assert(entry@ =~= head + seq!['.'] + tail);
            lemma_count_concat(head + seq!['.'], tail, '.');
            lemma_count_concat(head, seq!['.'], '.');
            assert(count_char(seq!['.'], '.') == 1) by {
                assert(seq!['.'].drop_last() =~= Seq::<char>::empty());
            }
            lemma_count_zero(head, '.');
            lemma_count_zero(tail, '.');
        }
        Ok(ClickhouseTableParts { database, table })
    }

    /// The qualified name, as it is written in a statement.
    pub fn to_string(&self) -> (s: String)
        ensures
            s@ == qualified_name(self@),
    {
        let mut s = self.database.clone();
        s.append(".");
        s.append(self.table.as_str());
        proof {
            reveal_strlit(".");
            assert("."@ =~= seq!['.']);
        }
        s
    }
}

/// One column of a table, with what its type name says of it.
#[derive(Debug)]
pub struct TableColumn {
    /// The column's name.
    pub name: String,
    /// The column's place in the table, counted from 1.
    pub position: u64,
    /// The column's type name, as the sink writes it.
    pub raw_type: String,
    /// The expression of the column's default; empty where it has none.
    pub default_expression: String,
    /// The column takes `NULL`.
    pub nullable: bool,
    /// The width in bits of an integer column: positive where it is signed,
    /// negative where it is unsigned or an enum, 0 where it is no integer.
    pub _int_size: i32,
    /// The column is an enum.
    pub is_enum: bool,
}

/// The mathematical content of a [`TableColumn`].
pub struct ColumnView {
    pub name: Seq<char>,
    pub position: u64,
    pub raw_type: Seq<char>,
    pub default_expression: Seq<char>,
    pub nullable: bool,
    pub int_size: i32,
    pub is_enum: bool,
}

impl View for TableColumn {
    type V = ColumnView;

    open spec fn view(&self) -> ColumnView {
        ColumnView {
            name: self.name@,
            position: self.position,
            raw_type: self.raw_type@,
            default_expression: self.default_expression@,
            nullable: self.nullable,
            int_size: self._int_size,
            is_enum: self.is_enum,
        }
    }
}

impl Clone for TableColumn {
    fn clone(&self) -> (r: Self)
        ensures
            r == *self,
    {
        TableColumn {
            name: self.name.clone(),
            position: self.position,
            raw_type: self.raw_type.clone(),
            default_expression: self.default_expression.clone(),
            nullable: self.nullable,
            _int_size: self._int_size,
            is_enum: self.is_enum,
        }
    }
}

/// What the catalog sets for a value that is lacking: `NULL` for a nullable
/// column, whatever else is set; else the column's default expression, where
/// it has one; else nothing.
pub open spec fn configured_literal(column: ColumnView) -> Option<Seq<char>> {
    if column.nullable {
        Some("NULL"@)
    } else if column.default_expression.len() > 0 {
        Some(column.default_expression)
    } else {
        None
    }
}

/// The literal that stands in for a value that a row lacks when the
/// statement is made: what the catalog sets, where it sets anything; else the
/// empty text for a `String` column; else there is none.
pub open spec fn default_literal(column: ColumnView) -> Option<Seq<char>> {
    match configured_literal(column) {
        Some(text) => Some(text),
        None => if column.raw_type == "String"@ {
            Some("''"@)
        } else {
            None
        },
    }
}

/// The column that a catalog row describes, once its type name is read.
pub open spec fn column_of(row: ColumnRowView, read: ColumnType) -> ColumnView {
    ColumnView {
        name: row.name,
        position: row.position,
        raw_type: row.raw_type,
        default_expression: row.default_expression,
        nullable: read.nullable,
        int_size: read.int_size,
        is_enum: read.is_enum,
    }
}

impl TableColumn {
    /// Whether this column and `other` hold the same.
    pub fn same_as(&self, other: &TableColumn) -> (same: bool)
        ensures
            same == (self@ == other@),
    {
        same_text(self.name.as_str(), other.name.as_str()) && self.position == other.position
            && same_text(self.raw_type.as_str(), other.raw_type.as_str()) && same_text(
            self.default_expression.as_str(),
            other.default_expression.as_str(),
        ) && self.nullable == other.nullable && self._int_size == other._int_size && self.is_enum
            == other.is_enum
    }

    /// What the catalog sets for a value that is lacking: `NULL` for a
    /// nullable column, else the default expression where there is one.
    pub fn configured_default(&self) -> (r: Option<String>)
        ensures
            r is Some <==> configured_literal(self@) is Some,
            r matches Some(s) ==> configured_literal(self@) == Some(s@),
    {
        if self.nullable {
            return Some("NULL".to_owned());
        }
        if !self.default_expression.as_str().is_empty() {
            return Some(self.default_expression.clone());
        }
        None
    }

    /// The literal that stands in for a value that a row lacks when the
    /// statement is made.
    pub fn default(&self) -> (r: Option<String>)
        ensures
            r is Some <==> default_literal(self@) is Some,
            r matches Some(s) ==> default_literal(self@) == Some(s@),
    {
        match self.configured_default() {
            Some(text) => Some(text),
            None => if same_text(self.raw_type.as_str(), "String") {
                Some("''".to_owned())
            } else {
                None
            },
        }
    }

    /// The column that the catalog row `value` describes. Its type name is
    /// read by [`parse_column_type`]; where that fails, so does this.
    pub fn try_from(value: ClickhouseTableColumnRow) -> (r: Result<TableColumn, Error>)
        ensures
            match r {
                Ok(column) => parsed_column_type(value@.raw_type) matches Ok(read) && column@
                    == column_of(value@, read),
                Err(e) => parsed_column_type(value@.raw_type) == Err::<ColumnType, ErrorView>(e@),
            },
            r matches Ok(column) ==> column@.nullable == crate::column_type::nullable_prefix().is_prefix_of(
                value@.raw_type,
            ),
    {
        let read = parse_column_type(value.raw_type.as_str())?;
        Ok(
            TableColumn {
                name: value.name,
                position: value.position,
                raw_type: value.raw_type,
                default_expression: value.default_expression,
                nullable: read.nullable,
                _int_size: read.int_size,
                is_enum: read.is_enum,
            },
        )
    }
}

/// A table: its name and its columns, in the order in which an `INSERT`
/// names them.
#[derive(Debug)]
pub struct Table {
    pub parts: ClickhouseTableParts,
    pub columns: Vec<TableColumn>,
}

/// The mathematical content of a [`Table`].
pub struct TableView {
    pub parts: TablePartsView,
    pub columns: Seq<ColumnView>,
}

/// The views of a sequence of columns.
pub open spec fn columns_view(columns: Seq<TableColumn>) -> Seq<ColumnView> {
    Seq::new(columns.len(), |i: int| columns[i]@)
}

impl View for Table {
    type V = TableView;

    open spec fn view(&self) -> TableView {
        TableView { parts: self.parts@, columns: columns_view(self.columns@) }
    }
}

/// A row on its way to the sink: the literal of each column that has one, by
/// the column's index counted from 0.
pub type RowView = Map<usize, Seq<char>>;

/// The content of a row.
pub open spec fn row_view(row: Map<usize, String>) -> RowView {
    Map::new(|i: usize| row.contains_key(i), |i: usize| row[i]@)
}

/// The contents of a sequence of rows.
pub open spec fn rows_view(rows: Seq<BTreeMap<usize, String>>) -> Seq<RowView> {
    Seq::new(rows.len(), |i: int| row_view(rows[i]@))
}

/// The columns are numbered as the catalog numbers them: from 1, without a
/// gap, in the order in which they stand.
pub open spec fn positions_contiguous(columns: Seq<ColumnView>) -> bool {
    forall|i: int| 0 <= i < columns.len() ==> (#[trigger] columns[i]).position == i + 1
}

/// The names of the columns, in order.
pub open spec fn column_names(columns: Seq<ColumnView>) -> Seq<Seq<char>> {
    Seq::new(columns.len(), |i: int| columns[i].name)
}

/// What column `i` gets in a row: the row's own value where it has one, else
/// the column's stand-in, else nothing.
pub open spec fn cell(columns: Seq<ColumnView>, row: RowView, i: int) -> Option<Seq<char>> {
    if row.contains_key(i as usize) {
        Some(row[i as usize])
    } else {
        default_literal(columns[i])
    }
}

/// Every column gets something in the row.
pub open spec fn row_complete(columns: Seq<ColumnView>, row: RowView) -> bool {
    forall|i: int| 0 <= i < columns.len() ==> (#[trigger] cell(columns, row, i)) is Some
}

/// The first column that gets nothing in the row, if there is one.
pub open spec fn missing_column(columns: Seq<ColumnView>, row: RowView) -> Option<int> {
    first_where(
        Seq::new(columns.len(), |i: int| cell(columns, row, i)),
        |c: Option<Seq<char>>| c is None,
    )
}

/// A row is complete exactly where no column gets nothing.
pub proof fn lemma_complete_iff_nothing_missing(columns: Seq<ColumnView>, row: RowView)
    ensures
        row_complete(columns, row) <==> missing_column(columns, row) is None,
        missing_column(columns, row) matches Some(i) ==> 0 <= i < columns.len(),
{
    let cells = Seq::new(columns.len(), |i: int| cell(columns, row, i));
    lemma_first_where(cells, |c: Option<Seq<char>>| c is None);
    if missing_column(columns, row) is None {
        assert forall|i: int| 0 <= i < columns.len() implies (#[trigger] cell(columns, row, i))
            is Some by {
            assert(cells[i] is Some);
        }
    } else {
        let i = missing_column(columns, row)->0;
        assert(cells[i] == cell(columns, row, i));
    }
}

/// A row that is left out of a statement: its place among the rows, and the
/// first column that got nothing in it.
#[derive(Clone, Copy, Debug, PartialEq, Eq, Structural)]
pub struct RowDiscard {
    pub row: usize,
    pub column: usize,
}

/// The rows that are left out of the statement, in the order in which the
/// rows came.
pub open spec fn discarded_rows(columns: Seq<ColumnView>, rows: Seq<RowView>) -> Seq<RowDiscard>
    decreases rows.len(),
{
    if rows.len() == 0 {
        Seq::empty()
    } else {
        match missing_column(columns, rows.last()) {
            Some(column) => discarded_rows(columns, rows.drop_last()).push(
                RowDiscard { row: (rows.len() - 1) as usize, column: column as usize },
            ),
            None => discarded_rows(columns, rows.drop_last()),
        }
    }
}

/// The literals of a complete row, one for each column.
pub open spec fn completed_row(columns: Seq<ColumnView>, row: RowView) -> Seq<Seq<char>> {
    Seq::new(columns.len(), |i: int| cell(columns, row, i)->0)
}

/// The rows that reach the statement: each complete row, completed, in the
/// order in which the rows came. A row that lacks a value for which nothing
/// stands in is left out whole.
pub open spec fn surviving_rows(columns: Seq<ColumnView>, rows: Seq<RowView>) -> Seq<Seq<Seq<char>>>
    decreases rows.len(),
{
    if rows.len() == 0 {
        Seq::empty()
    } else if row_complete(columns, rows.last()) {
        surviving_rows(columns, rows.drop_last()).push(completed_row(columns, rows.last()))
    } else {
        surviving_rows(columns, rows.drop_last())
    }
}

/// One row as the statement writes it: its literals between brackets.
pub open spec fn row_tuple(values: Seq<Seq<char>>) -> Seq<char> {
    "("@ + join(values, ","@) + ")"@
}

/// The rows as the statement writes them.
pub open spec fn row_tuples(rows: Seq<Seq<Seq<char>>>) -> Seq<Seq<char>> {
    Seq::new(rows.len(), |i: int| row_tuple(rows[i]))
}

/// The head of an `INSERT` into `table`, up to and with `VALUES` and the
/// blank behind it.
pub open spec fn insert_head(table: TableView) -> Seq<char> {
    "INSERT INTO "@ + qualified_name(table.parts) + " ("@ + join(
        column_names(table.columns),
        ","@,
    ) + ") VALUES "@
}

/// The statement that writes `rows`, each a sequence of literals, into
/// `table`.
pub open spec fn insert_statement(table: TableView, rows: Seq<Seq<Seq<char>>>) -> Seq<char> {
    insert_head(table) + join(row_tuples(rows), ","@)
}

/// The statement for a batch of rows, or none where no row survives.
pub open spec fn batch_statement(table: TableView, rows: Seq<RowView>) -> Option<Seq<char>> {
    let kept = surviving_rows(table.columns, rows);
    if kept.len() == 0 {
        None
    } else {
        Some(insert_statement(table, kept))
    }
}

/// The contents of rows of literals.
pub open spec fn literal_rows(rows: Seq<Vec<String>>) -> Seq<Seq<Seq<char>>> {
    Seq::new(rows.len(), |i: int| texts(rows[i]@))
}

impl Table {
    /// The table of that name with those columns.
    pub fn new(parts: ClickhouseTableParts, columns: Vec<TableColumn>) -> (table: Table)
        ensures
            table.parts == parts,
            table.columns == columns,
    {
        Table { parts, columns }
    }

    /// The names of the columns, in order.
    pub fn column_values(&self) -> (names: Vec<String>)
        ensures
            texts(names@) == column_names(self@.columns),
    {
        let mut names: Vec<String> = Vec::new();
        let mut i: usize = 0;
        while i < self.columns.len()
            invariant
                i <= self.columns@.len(),
                names@.len() == i,
                forall|j: int| 0 <= j < i ==> (#[trigger] names@[j])@ == self.columns@[j].name@,
            decreases self.columns.len() - i,
        {
            names.push(self.columns[i].name.clone());
            i = i + 1;
        }
        assert(texts(names@) =~= column_names(self@.columns));
        names
    }

    pub(crate) fn head(&self) -> (s: String)
        ensures
            s@ == insert_head(self@),
    {
        let names = self.column_values();
        let mut s = "INSERT INTO ".to_owned();
        s.append(self.parts.to_string().as_str());
        s.append(" (");
        s.append(join_with(&names, ",").as_str());
        s.append(") VALUES ");
        s
    }

    /// The literals of `row`, completed by the columns' stand-ins, or the
    /// index of the first column that gets nothing.
    pub fn complete_row(&self, row: &BTreeMap<usize, String>) -> (r: Result<Vec<String>, usize>)
        ensures
            r is Ok <==> row_complete(self@.columns, row_view(row@)),
            match r {
                Ok(values) => texts(values@) == completed_row(self@.columns, row_view(row@)),
                Err(column) => missing_column(self@.columns, row_view(row@)) == Some(
                    column as int,
                ),
            },
    {

        let mut values: Vec<String> = Vec::new();
        let mut i: usize = 0;
        while i < self.columns.len()
            invariant
                i <= self.columns@.len(),
                values@.len() == i,
                forall|j: int|
                    0 <= j < i ==> cell(self@.columns, row_view(row@), j) == Some(
                        (#[trigger] values@[j])@,
                    ),
            decreases self.columns.len() - i,
        {
            let value = match row.get(&i) {
                Some(value) => value.clone(),
                None => match self.columns[i].default() {
                    Some(value) => value,
                    None => {
                        proof {
                            let cells = Seq::new(
                                self@.columns.len(),
                                |i: int| cell(self@.columns, row_view(row@), i),
                            );
                            assert(cell(self@.columns, row_view(row@), i as int) is None);
                            assert forall|j: int| 0 <= j < i implies cells[j] is Some by {
                                assert(cells[j] == Some(values@[j]@));
                            }
                            lemma_first_where_is(
                                cells,
                                |c: Option<Seq<char>>| c is None,
                                i as int,
                            );
                            lemma_complete_iff_nothing_missing(self@.columns, row_view(row@));
                        }
                        return Err(i);
                    },
                },
            };
            assert(cell(self@.columns, row_view(row@), i as int) == Some(value@));
            values.push(value);
            i = i + 1;
        }
        assert forall|j: int| 0 <= j < self@.columns.len() implies (#[trigger] cell(
            self@.columns,
            row_view(row@),
            j,
        )) is Some by {
            assert(cell(self@.columns, row_view(row@), j) == Some(values@[j]@));
        }
        assert(texts(values@) =~= completed_row(self@.columns, row_view(row@)));
        Ok(values)
    }

    /// The rows of `entries` that reach the statement, completed, and those
    /// that are left out.
    pub fn complete_rows(&self, entries: &Vec<BTreeMap<usize, String>>) -> (r: (
        Vec<Vec<String>>,
        Vec<RowDiscard>,
    ))
        ensures
            literal_rows(r.0@) == surviving_rows(self@.columns, rows_view(entries@)),
            r.1@ == discarded_rows(self@.columns, rows_view(entries@)),
            r.0@.len() <= entries@.len(),
    {
        let mut kept: Vec<Vec<String>> = Vec::new();
        let mut discarded: Vec<RowDiscard> = Vec::new();
        let mut i: usize = 0;
        assert(literal_rows(kept@) =~= Seq::empty());
        while i < entries.len()
            invariant
                i <= entries@.len(),
                kept@.len() <= i,
                literal_rows(kept@) == surviving_rows(
                    self@.columns,
                    rows_view(entries@).take(i as int),
                ),
                discarded@ == discarded_rows(self@.columns, rows_view(entries@).take(i as int)),
            decreases entries.len() - i,
        {
            proof {
                lemma_complete_iff_nothing_missing(
                    self@.columns,
                    row_view(entries@[i as int]@),
                );
            }
            let ghost before = rows_view(entries@).take(i as int);
            let ghost after = rows_view(entries@).take(i + 1);
            assert(after.drop_last() =~= before);
            assert(after.last() == row_view(entries@[i as int]@));
            let ghost old_kept = literal_rows(kept@);
            match self.complete_row(&entries[i]) {
                Ok(values) => {
                    kept.push(values);
                    assert(literal_rows(kept@) =~= old_kept.push(texts(values@)));
                },
                Err(column) => {
                    discarded.push(RowDiscard { row: i, column });
                },
            }
            i = i + 1;
        }
        assert(rows_view(entries@).take(entries@.len() as int) =~= rows_view(entries@));
        (kept, discarded)
    }

    /// The statement that writes `rows`, each a sequence of literals, one for
    /// each column.
    pub fn render_rows(&self, rows: &Vec<Vec<String>>) -> (s: String)
        ensures
            s@ == insert_statement(self@, literal_rows(rows@)),
    {
        let mut tuples: Vec<String> = Vec::new();
        let mut i: usize = 0;
        while i < rows.len()
            invariant
                i <= rows@.len(),
                tuples@.len() == i,
                forall|j: int|
                    0 <= j < i ==> (#[trigger] tuples@[j])@ == row_tuple(texts(rows@[j]@)),
            decreases rows.len() - i,
        {
            let mut tuple = "(".to_owned();
            tuple.append(join_with(&rows[i], ",").as_str());
            tuple.append(")");
            tuples.push(tuple);
            i = i + 1;
        }
        assert(texts(tuples@) =~= row_tuples(literal_rows(rows@)));
        let mut s = self.head();
        s.append(join_with(&tuples, ",").as_str());
        s
    }

    /// One `INSERT` for the rows of `entries`: each row is completed by the
    /// columns' stand-ins, a row that cannot be completed is left out whole,
    /// and where no row is left there is no statement.
    pub fn construct_batch(&self, entries: Vec<BTreeMap<usize, String>>) -> (r: Option<String>)
        ensures
            r is Some <==> batch_statement(self@, rows_view(entries@)) is Some,
            r matches Some(s) ==> batch_statement(self@, rows_view(entries@)) == Some(s@),
    {
        let (kept, _) = self.complete_rows(&entries);
        if kept.len() == 0 {
            None
        } else {
            Some(self.render_rows(&kept))
        }
    }
}

/// A nullable column's stand-in is `NULL`, whatever default it is set to and
/// whatever its type.
pub proof fn lemma_nullable_default_is_null(column: ColumnView)
    requires
        column.nullable,
    ensures
        configured_literal(column) == Some("NULL"@),
        default_literal(column) == Some("NULL"@),
{
}

} // verus!
