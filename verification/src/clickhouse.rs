//! What the sink's catalog tells of a table's columns.
use vstd::prelude::*;

verus! {

/// One row of the catalog: a column as the sink describes it.
#[derive(Debug)]
pub struct ClickhouseTableColumnRow {
    /// The column's name.
    pub name: String,
    /// The column's place in the table, counted from 1.
    pub position: u64,
    /// The column's type name, as the sink writes it.
    pub raw_type: String,
    /// The expression of the column's default; empty where it has none.
    pub default_expression: String,
}

/// The mathematical content of a [`ClickhouseTableColumnRow`].
pub struct ColumnRowView {
    pub name: Seq<char>,
    pub position: u64,
    pub raw_type: Seq<char>,
    pub default_expression: Seq<char>,
}

impl View for ClickhouseTableColumnRow {
    type V = ColumnRowView;

    open spec fn view(&self) -> ColumnRowView {
        ColumnRowView {
            name: self.name@,
            position: self.position,
            raw_type: self.raw_type@,
            default_expression: self.default_expression@,
        }
    }
}

impl Clone for ClickhouseTableColumnRow {
    fn clone(&self) -> (r: Self)
        ensures
            r == *self,
    {
        ClickhouseTableColumnRow {
            name: self.name.clone(),
            position: self.position,
            raw_type: self.raw_type.clone(),
            default_expression: self.default_expression.clone(),
        }
    }
}

} // verus!
