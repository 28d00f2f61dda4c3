//! What a relational sink's catalog tells of a table's columns.
use crate::clickhouse::{ClickhouseTableColumnRow, ColumnRowView};
use crate::error::{Error, ErrorView};
use vstd::prelude::*;

verus! {

/// One row of the catalog: a column as the sink describes it.
#[derive(Debug)]
pub struct TableColumnRow {
    /// The column's name.
    pub name: String,
    /// The column's place in the table.
    pub position: i64,
    /// The column's type name, as the sink writes it.
    pub raw_type: String,
    /// The sink's own word on whether the column takes `NULL`.
    pub nullable: bool,
    /// The expression of the column's default; empty where it has none.
    pub default_expression: String,
}

/// What is said of a column whose place is below zero.
pub open spec fn negative_position() -> ErrorView {
    ErrorView::ParseError("Invalid column position"@)
}

impl TableColumnRow {
    /// The same column as a row of the catalog that the bindings are made
    /// from. A place below zero is refused. The sink's own word on `NULL` is
    /// left behind: whether a column is nullable is read off its type name.
    pub fn into_catalog_row(self) -> (r: Result<ClickhouseTableColumnRow, Error>)
        ensures
            match r {
                Ok(row) => self.position >= 0 && row@ == (ColumnRowView {
                    name: self.name@,
                    position: self.position as u64,
                    raw_type: self.raw_type@,
                    default_expression: self.default_expression@,
                }),
                Err(e) => self.position < 0 && e@ == negative_position(),
            },
    {
        if self.position < 0 {
            return Err(Error::parse_error("Invalid column position"));
        }
        Ok(
            ClickhouseTableColumnRow {
                name: self.name,
                position: self.position as u64,
                raw_type: self.raw_type,
                default_expression: self.default_expression,
            },
        )
    }
}

} // verus!
