//! Building the registry of bindings, one mapping at a time.
//!
//! For each mapping the caller first asks [`AppContext::plan_binding`] what
//! to fetch, fetches the table's columns from the sink, and hands them to
//! [`AppContext::bind_message`].
use crate::clickhouse::{ClickhouseTableColumnRow, ColumnRowView};
use crate::clickhouse_message_binding::{MessageBinding, bind_proto_message, bound_fields};
use crate::clickhouse_table::{
    ClickhouseTableParts,
    ColumnView,
    Table,
    TableColumn,
    TablePartsView,
    column_of,
    columns_view,
    invalid_table_message,
    qualified_name,
};
use crate::column_type::parsed_column_type;
use crate::config::Mapping;
use crate::context::{AppContext, binding_named};
use crate::error::{Error, ErrorView};
use crate::find::lemma_first_where;
use crate::protobuf::{MessageDescriptor, MessageRef, Schema, message_named};
use crate::text::count_char;
use vstd::prelude::*;
use vstd::string::*;

verus! {

/// What is to be fetched for a mapping: the columns of `table`, to bind
/// `message` to them.
#[derive(Debug)]
pub struct PlannedBinding {
    pub message: MessageRef,
    pub table: ClickhouseTableParts,
}

/// What is said of a mapping whose message type the schema does not know.
pub open spec fn message_not_found() -> ErrorView {
    ErrorView::ParseError("Could not find message definition"@)
}

/// What is said of a mapping whose message type is bound to `table` already.
pub open spec fn already_bound(full_name: Seq<char>, table: TablePartsView) -> ErrorView {
    ErrorView::InvalidMappingConfig(
        "Message "@ + full_name + " is already binded to "@ + qualified_name(table),
    )
}

/// The columns that the catalog rows describe, in the rows' order; the first
/// row whose type name cannot be read decides the error.
pub open spec fn columns_of_rows(rows: Seq<ColumnRowView>) -> Result<Seq<ColumnView>, ErrorView>
    decreases rows.len(),
{
    if rows.len() == 0 {
        Ok(Seq::empty())
    } else {
        match columns_of_rows(rows.drop_last()) {
            Err(e) => Err(e),
            Ok(columns) => match parsed_column_type(rows.last().raw_type) {
                Err(e) => Err(e),
                Ok(read) => Ok(columns.push(column_of(rows.last(), read))),
            },
        }
    }
}

/// The views of catalog rows.
pub open spec fn rows_content(rows: Seq<ClickhouseTableColumnRow>) -> Seq<ColumnRowView> {
    Seq::new(rows.len(), |i: int| rows[i]@)
}

/// Once a row decides an error, the rows behind it change nothing.
pub proof fn lemma_columns_error_sticks(rows: Seq<ColumnRowView>, k: int)
    requires
        0 <= k <= rows.len(),
        columns_of_rows(rows.take(k)) is Err,
    ensures
        columns_of_rows(rows) == columns_of_rows(rows.take(k)),
    decreases rows.len() - k,
{
    if k == rows.len() {
        assert(rows.take(k) =~= rows);
    } else {
        assert(rows.take(k + 1).drop_last() =~= rows.take(k));
        lemma_columns_error_sticks(rows, k + 1);
    }
}

/// The table `parts` with the columns that the catalog rows describe.
pub fn construct_table(parts: ClickhouseTableParts, rows: &Vec<ClickhouseTableColumnRow>) -> (r:
    Result<Table, Error>)
    ensures
        match r {
            Ok(table) => columns_of_rows(rows_content(rows@)) == Ok::<Seq<ColumnView>, ErrorView>(
                table@.columns,
            ) && table.parts == parts,
            Err(e) => columns_of_rows(rows_content(rows@)) == Err::<Seq<ColumnView>, ErrorView>(
                e@,
            ),
        },
{
    let ghost content = rows_content(rows@);
    let mut columns: Vec<TableColumn> = Vec::new();
    let mut i: usize = 0;
    assert(columns_view(columns@) =~= Seq::empty());
    assert(content.take(0).len() == 0);
    while i < rows.len()
        invariant
            i <= rows@.len(),
            content == rows_content(rows@),
            columns_of_rows(content.take(i as int)) == Ok::<Seq<ColumnView>, ErrorView>(
                columns_view(columns@),
            ),
        decreases rows.len() - i,
    {
        proof {
            assert(content.take(i + 1).drop_last() =~= content.take(i as int));
            assert(content.take(i + 1).last() == rows@[i as int]@);
        }
        let ghost before = columns_view(columns@);
        match TableColumn::try_from(rows[i].clone()) {
            Ok(column) => {
                columns.push(column);
                assert(columns_view(columns@) =~= before.push(column@));
            },
            Err(e) => {
                proof {
                    lemma_columns_error_sticks(content, i + 1);
                }
                return Err(e);
            },
        }
        i = i + 1;
    }
    assert(content.take(rows@.len() as int) =~= content);
    Ok(Table::new(parts, columns))
}

impl AppContext {
    /// Looks at a mapping before the sink is asked for anything. The
    /// message type must be known to the schema and not be bound yet, and
    /// the table's name must have its two parts; then the answer says which
    /// table's columns to fetch.
    pub fn plan_binding(&self, mapping: &Mapping, schema: &Schema) -> (r: Result<
        PlannedBinding,
        Error,
    >)
        ensures
            match message_named(*schema, mapping.proto@) {
                None => r matches Err(e) && e@ == message_not_found(),
                Some(m) => match binding_named(
                    self.proto_registry.bindings@,
                    schema.messages@[m].full_name@,
                ) {
                    Some(b) => r matches Err(e) && e@ == already_bound(
                        schema.messages@[m].full_name@,
                        self.proto_registry.bindings@[b].table.parts@,
                    ),
                    None => if count_char(mapping.table@, '.') == 1 {
                        r matches Ok(planned) && planned.message.0 == m && mapping.table@
                            == qualified_name(planned.table@)
                    } else {
                        r matches Err(e) && e@ == ErrorView::InvalidMappingConfig(
                            invalid_table_message(),
                        )
                    },
                },
            },
    {
        let message = match schema.get_message(mapping.proto.as_str()) {
            Some(message) => message,
            None => {
                return Err(Error::parse_error("Could not find message definition"));
            },
        };
        proof {
            lemma_first_where(
                schema.messages@,
                |m: MessageDescriptor| m.full_name@ == mapping.proto@,
            );
        }
        let full_name = &schema.messages[message.0].full_name;
        match self.proto_registry.get(full_name.as_str()) {
            Some(binding) => {
                let mut text = "Message ".to_owned();
                text.append(full_name.as_str());
                text.append(" is already binded to ");
                text.append(binding.table.parts.to_string().as_str());
                return Err(Error::InvalidMappingConfig(text));
            },
            None => {},
        }
        let table = ClickhouseTableParts::from_string(mapping.table.as_str())?;
        Ok(PlannedBinding { message, table })
    }

    /// Binds `message` to the table `parts`, whose columns the sink gave as
    /// `rows`, and keeps the binding. A message type that is bound already is
    /// an error. A table without columns is passed over: nothing is bound and
    /// the answer is `false`.
    pub fn bind_message(
        &mut self,
        message: &MessageDescriptor,
        parts: ClickhouseTableParts,
        rows: &Vec<ClickhouseTableColumnRow>,
    ) -> (r: Result<bool, Error>)
        ensures
            old(self).proto_registry.wf() ==> final(self).proto_registry.wf(),
            match binding_named(old(self).proto_registry.bindings@, message.full_name@) {
                Some(b) => {
                    &&& r matches Err(e) && e@ == already_bound(
                        message.full_name@,
                        old(self).proto_registry.bindings@[b].table.parts@,
                    )
                    &&& *final(self) == *old(self)
                },
                None => if rows@.len() == 0 {
                    r == Ok::<bool, Error>(false) && *final(self) == *old(self)
                } else {
                    match columns_of_rows(rows_content(rows@)) {
                        Err(error) => r matches Err(e) && e@ == error && *final(self) == *old(self),
                        Ok(columns) => {
                            &&& r == Ok::<bool, Error>(true)
                            &&& final(self).proto_registry.bindings@.len() == old(
                                self,
                            ).proto_registry.bindings@.len() + 1
                            &&& final(self).proto_registry.bindings@.drop_last() == old(
                                self,
                            ).proto_registry.bindings@
                            &&& bound_as(
                                final(self).proto_registry.bindings@.last(),
                                *message,
                                parts,
                                columns,
                            )
                        },
                    }
                },
            },
    {
        match self.proto_registry.get(message.full_name.as_str()) {
            Some(binding) => {
                let mut text = "Message ".to_owned();
                text.append(message.full_name.as_str());
                text.append(" is already binded to ");
                text.append(binding.table.parts.to_string().as_str());
                return Err(Error::InvalidMappingConfig(text));
            },
            None => {},
        }
        if rows.len() == 0 {
            return Ok(false);
        }
        let table = construct_table(parts, rows)?;
        let binding = match bind_proto_message(message, table) {
            Ok(binding) => binding,
            Err(e) => {
                return Err(e);
            },
        };
        let ghost before = self.proto_registry.bindings@;
        self.proto_registry.insert(binding);
        assert(self.proto_registry.bindings@.drop_last() =~= before);
        Ok(true)
    }
}

/// `binding` is what binds `message` to the table `parts` with `columns`.
pub open spec fn bound_as(
    binding: MessageBinding,
    message: MessageDescriptor,
    parts: ClickhouseTableParts,
    columns: Seq<ColumnView>,
) -> bool {
    &&& binding.full_name@ == message.full_name@
    &&& binding.table.parts == parts
    &&& binding.table@.columns == columns
    &&& binding.message_mappings@ == bound_fields(message, binding.table.columns@)
    &&& binding.wf()
}

} // verus!
