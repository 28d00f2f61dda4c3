//! Binding a message type to a table, and turning a decoded message into a
//! row of literals through the binding.
use crate::clickhouse_table::{
    RowView,
    Table,
    TableColumn,
    columns_view,
    configured_literal,
    positions_contiguous,
    row_view,
};
use crate::error::{Error, ErrorView, text_result};
use crate::find::{first_where, lemma_first_where, lemma_first_where_is, lemma_first_where_none};
use crate::protobuf::{
    FieldDescriptor,
    FieldValue,
    MessageDescriptor,
    MessageValue,
    Schema,
    Value,
    ValueType,
    field_named,
    timestamp_seconds,
    value_text,
    value_to_string,
};
use std::collections::BTreeMap;
use std::collections::HashMap;
use vstd::prelude::*;
use vstd::string::*;

verus! {

/// A field of a message bound to a column of a table.
#[derive(Debug)]
pub struct PreparedMessageField {
    /// The field.
    pub desc: FieldDescriptor,
    /// The kind of values that the field is declared to hold.
    pub kind: ValueType,
    /// The column.
    pub column: TableColumn,
}

/// A message type bound to a table: for each column that has a field of its
/// name, that field, by the column's index counted from 0.
#[derive(Debug)]
pub struct MessageBinding {
    /// The full name of the message type.
    pub full_name: String,
    /// The table.
    pub table: Table,
    /// The bound fields, by column index.
    pub message_mappings: HashMap<usize, PreparedMessageField>,
}

impl MessageBinding {
    /// Every entry stands under the index of a column of the table, and
    /// holds that column.
    pub open spec fn wf(&self) -> bool {
        forall|i: usize| #[trigger]
            self.message_mappings@.contains_key(i) ==> i < self.table.columns@.len()
                && self.message_mappings@[i].column@ == self.table.columns@[i as int]@
    }

    /// Whether every entry stands under the index of a column of the table
    /// and holds that column.
    pub fn is_well_formed(&self) -> (b: bool)
        ensures
            b == self.wf(),
    {
        let n = self.table.columns.len();
        let ghost keys = self.message_mappings@.dom();
        let mut found: usize = 0;
        let mut i: usize = 0;
        assert(keys.filter(|k: usize| k < 0usize) =~= Set::empty());
        while i < n
            invariant
                i <= n,
                n == self.table.columns@.len(),
                keys == self.message_mappings@.dom(),
                keys.finite(),
                found == keys.filter(|k: usize| k < i).len(),
                found <= i,
                forall|k: usize|
                    k < i && #[trigger] self.message_mappings@.contains_key(k)
                        ==> self.message_mappings@[k].column@ == self.table.columns@[k as int]@,
            decreases n - i,
        {
            proof {
                keys.lemma_len_filter(|k: usize| k < i);
            }
            match self.message_mappings.get(&i) {
                Some(field) => {
                    if !field.column.same_as(&self.table.columns[i]) {
                        assert(self.message_mappings@.contains_key(i));
                        return false;
                    }
                    assert(keys.filter(|k: usize| k < (i + 1) as usize) =~= keys.filter(
                        |k: usize| k < i,
                    ).insert(i));
                    found = found + 1;
                },
                None => {
                    assert(keys.filter(|k: usize| k < (i + 1) as usize) =~= keys.filter(
                        |k: usize| k < i,
                    ));
                },
            }
            i = i + 1;
        }
        let all = found == self.message_mappings.len();
        proof {
            let below = keys.filter(|k: usize| k < n);
            keys.lemma_len_filter(|k: usize| k < n);
            if all {
                vstd::set_lib::lemma_subset_equality(below, keys);
                assert forall|k: usize| #[trigger]
                    self.message_mappings@.contains_key(k) implies k < n by {
                    assert(below.contains(k));
                }
            } else if self.wf() {
                assert(below =~= keys);
            }
        }
        all
    }
}

/// The field that column `i` of `columns` is bound to in `message`: the first
/// field that has the column's name.
pub open spec fn bound_field(message: MessageDescriptor, columns: Seq<TableColumn>, i: int) -> Option<
    PreparedMessageField,
> {
    match field_named(message, columns[i].name@) {
        Some(j) => Some(
            PreparedMessageField {
                desc: message.fields@[j],
                kind: message.fields@[j].field_type,
                column: columns[i],
            },
        ),
        None => None,
    }
}

/// The bound fields of the first `n` columns, by column index.
pub open spec fn bound_fields_upto(message: MessageDescriptor, columns: Seq<TableColumn>, n: int) -> Map<
    usize,
    PreparedMessageField,
> {
    Map::new(
        |i: usize| i < n && i < columns.len() && bound_field(message, columns, i as int) is Some,
        |i: usize| bound_field(message, columns, i as int)->0,
    )
}

/// The bound fields of all the columns, by column index. A column without a
/// field of its name has no entry.
pub open spec fn bound_fields(message: MessageDescriptor, columns: Seq<TableColumn>) -> Map<
    usize,
    PreparedMessageField,
> {
    bound_fields_upto(message, columns, columns.len() as int)
}

/// Binds `message` to `table`: every column for which the message has a field
/// of the same name, letter for letter, is bound to the first such field,
/// under the column's index, which in a table whose columns are numbered
/// without a gap is the column's position less one. The other columns stay
/// unbound, which is no error.
pub fn bind_proto_message(message: &MessageDescriptor, table: Table) -> (r: Result<
    MessageBinding,
    Error,
>)
    ensures
        r matches Ok(binding) && {
            &&& binding.full_name@ == message.full_name@
            &&& binding.table == table
            &&& binding.message_mappings@ == bound_fields(*message, table.columns@)
            &&& binding.wf()
            &&& positions_contiguous(table@.columns) ==> forall|i: usize| #[trigger]
                binding.message_mappings@.contains_key(i) ==> i
                    == binding.message_mappings@[i].column.position - 1
        },
{
    proof {
        lemma_bound_keys_are_columns(*message, table.columns@);
    }
    let mut column_fields: HashMap<usize, PreparedMessageField> = HashMap::new();
    let mut i: usize = 0;
    while i < table.columns.len()
        invariant
            i <= table.columns@.len(),
            column_fields@ == bound_fields_upto(*message, table.columns@, i as int),
        decreases table.columns.len() - i,
    {
        let column = &table.columns[i];
        match message.get_field_by_name(column.name.as_str()) {
            Some(field) => {
                column_fields.insert(
                    i,
                    PreparedMessageField {
                        desc: field.clone(),
                        kind: field.field_type,
                        column: column.clone(),
                    },
                );
            },
            None => {},
        }
        assert(column_fields@ =~= bound_fields_upto(*message, table.columns@, i + 1));
        i = i + 1;
    }
    Ok(MessageBinding { full_name: message.full_name.clone(), table, message_mappings: column_fields })
}

/// Whether `message` has a field of that name.
pub open spec fn has_field_named(message: MessageDescriptor, name: Seq<char>) -> bool {
    exists|j: int| 0 <= j < message.fields@.len() && (#[trigger] message.fields@[j]).name@ == name
}

/// Where every column's name is the name of a field, every column is bound.
pub proof fn lemma_every_named_column_is_bound(message: MessageDescriptor, columns: Seq<TableColumn>)
    requires
        forall|i: int|
            0 <= i < columns.len() ==> has_field_named(message, (#[trigger] columns[i]).name@),
    ensures
        forall|i: usize| i < columns.len() ==> bound_fields(message, columns).contains_key(i),
{
    assert forall|i: usize| i < columns.len() implies bound_fields(message, columns).contains_key(
        i,
    ) by {
        let p = |f: FieldDescriptor| f.name@ == columns[i as int].name@;
        lemma_first_where(message.fields@, p);
        assert(has_field_named(message, columns[i as int].name@));
        let j = choose|j: int|
            0 <= j < message.fields@.len() && (#[trigger] message.fields@[j]).name@
                == columns[i as int].name@;
        assert(p(message.fields@[j]));
    }
}

/// A binding has no entry but for a column of the table, and in a table whose
/// columns are numbered without a gap the entry of a column stands under the
/// column's position less one.
pub proof fn lemma_bound_keys_are_columns(message: MessageDescriptor, columns: Seq<TableColumn>)
    ensures
        forall|i: usize| #[trigger]
            bound_fields(message, columns).contains_key(i) ==> i < columns.len()
                && bound_fields(message, columns)[i].column == columns[i as int],
        positions_contiguous(columns_view(columns)) ==> forall|i: usize| #[trigger]
            bound_fields(message, columns).contains_key(i) ==> i == bound_fields(
                message,
                columns,
            )[i].column.position - 1,
{
    assert forall|i: usize|
        positions_contiguous(columns_view(columns)) && #[trigger] bound_fields(
            message,
            columns,
        ).contains_key(i) implies i == bound_fields(message, columns)[i].column.position - 1 by {
        assert(columns_view(columns)[i as int].position == i + 1);
    }
}

/// What is said of a field that a message lacks and nothing stands in for.
pub open spec fn no_default_message(name: Seq<char>) -> Seq<char> {
    "For '"@ + name + "' in message"@
}

/// The literal of a bound field that the message does not hold: `NULL` for a
/// nullable column, before all else; else the column's default expression,
/// where it has one; else `false` for a boolean field, the empty text for a
/// string field and the empty object for a message field; else there is
/// none. The column's type plays no part here.
pub open spec fn absent_field_text(field: PreparedMessageField) -> Result<Seq<char>, ErrorView> {
    match configured_literal(field.column@) {
        Some(text) => Ok(text),
        None => match field.kind {
            ValueType::Bool => Ok("false"@),
            ValueType::String => Ok("\'\'"@),
            ValueType::Message(_) => Ok("{}"@),
            _ => Err(ErrorView::NoProtoDefault(no_default_message(field.desc.name@))),
        },
    }
}

/// A bound field that the message does not hold, on a column that is not
/// nullable and has no default expression, goes by its kind alone: a number,
/// an enum or bytes have no literal, whatever the column's type.
pub proof fn lemma_absent_field_goes_by_kind(field: PreparedMessageField)
    requires
        !field.column.nullable,
        field.column.default_expression@.len() == 0,
    ensures
        field.kind is Bool ==> absent_field_text(field) == Ok::<Seq<char>, ErrorView>("false"@),
        field.kind is String ==> absent_field_text(field) == Ok::<Seq<char>, ErrorView>(
            "\'\'"@,
        ),
        field.kind is Message ==> absent_field_text(field) == Ok::<Seq<char>, ErrorView>("{}"@),
        !(field.kind is Bool || field.kind is String || field.kind is Message)
            ==> absent_field_text(field) == Err::<Seq<char>, ErrorView>(
            ErrorView::NoProtoDefault(no_default_message(field.desc.name@)),
        ),
{
}

/// A field bound to a nullable column is `NULL` where the message lacks it,
/// whatever default the column is set to and whatever the field's kind.
pub proof fn lemma_absent_nullable_field_is_null(field: PreparedMessageField)
    requires
        field.column.nullable,
    ensures
        absent_field_text(field) == Ok::<Seq<char>, ErrorView>("NULL"@),
{
}

/// Whether `value` is a timestamp that is written as its seconds.
pub open spec fn written_as_seconds(schema: Schema, value: Value) -> bool {
    match value {
        Value::Message(message) => timestamp_seconds(schema, *message) is Some,
        _ => false,
    }
}

/// The literal of a bound field that the message holds with `value`: the
/// value's own literal, between single quotes where the field is declared a
/// message and the value is no timestamp written as its seconds.
pub open spec fn present_field_text(schema: Schema, kind: ValueType, value: Value) -> Result<
    Seq<char>,
    ErrorView,
> {
    match value_text(schema, value) {
        Err(e) => Err(e),
        Ok(text) => if kind is Message && !written_as_seconds(schema, value) {
            Ok("'"@ + text + "'"@)
        } else {
            Ok(text)
        },
    }
}

/// The literal of a bound field for `message`: that of the first value that
/// the message holds under the field's number, or the stand-in where it holds
/// none.
pub open spec fn field_text(schema: Schema, field: PreparedMessageField, message: MessageValue) -> Result<
    Seq<char>,
    ErrorView,
> {
    match first_where(message.fields@, |f: FieldValue| f.number == field.desc.number) {
        Some(i) => present_field_text(schema, field.kind, message.fields@[i].value),
        None => absent_field_text(field),
    }
}

/// The row of `message` as far as the first `n` columns go: the literal of
/// each bound field, by column index. The first field, in the order of the
/// columns, that has no literal decides the error.
pub open spec fn row_upto(
    schema: Schema,
    mappings: Map<usize, PreparedMessageField>,
    message: MessageValue,
    n: nat,
) -> Result<RowView, ErrorView>
    decreases n,
{
    if n == 0 {
        Ok(Map::empty())
    } else {
        let i = (n - 1) as usize;
        match row_upto(schema, mappings, message, (n - 1) as nat) {
            Err(e) => Err(e),
            Ok(row) => if mappings.contains_key(i) {
                match field_text(schema, mappings[i], message) {
                    Err(e) => Err(e),
                    Ok(text) => Ok(row.insert(i, text)),
                }
            } else {
                Ok(row)
            },
        }
    }
}

/// The row of `message` under `binding`.
pub open spec fn prepared_row(schema: Schema, binding: MessageBinding, message: MessageValue) -> Result<
    RowView,
    ErrorView,
> {
    row_upto(schema, binding.message_mappings@, message, binding.table.columns@.len())
}

/// Once a field decides an error, the columns behind it change nothing.
pub proof fn lemma_row_error_sticks(
    schema: Schema,
    mappings: Map<usize, PreparedMessageField>,
    message: MessageValue,
    k: nat,
    n: nat,
)
    requires
        k <= n,
        row_upto(schema, mappings, message, k) is Err,
    ensures
        row_upto(schema, mappings, message, n) == row_upto(schema, mappings, message, k),
    decreases n - k,
{
    if k < n {
        lemma_row_error_sticks(schema, mappings, message, k, (n - 1) as nat);
    }
}

/// A row holds a literal for exactly the bound columns that it was made
/// for.
pub proof fn lemma_row_keys_are_columns(
    schema: Schema,
    mappings: Map<usize, PreparedMessageField>,
    message: MessageValue,
    n: nat,
)
    ensures
        row_upto(schema, mappings, message, n) matches Ok(row) ==> forall|i: usize|
            row.contains_key(i) <==> i < n && mappings.contains_key(i),
    decreases n,
{
    if n > 0 {
        lemma_row_keys_are_columns(schema, mappings, message, (n - 1) as nat);
    }
}

impl PreparedMessageField {
    /// The literal of this field for `message`, as [`field_text`] defines
    /// it.
    pub fn prepare_field_value(&self, ctx: &Schema, message: &MessageValue) -> (r: Result<
        String,
        Error,
    >)
        ensures
            text_result(r) == field_text(*ctx, *self, *message),
    {
        let ghost p = |f: FieldValue| f.number == self.desc.number;
        let mut i: usize = 0;
        while i < message.fields.len()
            invariant
                i <= message.fields@.len(),
                p == |f: FieldValue| f.number == self.desc.number,
                forall|j: int| 0 <= j < i ==> !p(message.fields@[j]),
            decreases message.fields.len() - i,
        {
            if message.fields[i].number == self.desc.number {
                proof {
                    lemma_first_where_is(message.fields@, p, i as int);
                }
                return self.present_value(ctx, &message.fields[i].value);
            }
            i = i + 1;
        }
        proof {
            lemma_first_where_none(message.fields@, p);
        }
        self.absent_value()
    }

    fn present_value(&self, ctx: &Schema, value: &Value) -> (r: Result<String, Error>)
        ensures
            text_result(r) == present_field_text(*ctx, self.kind, *value),
    {
        let text = value_to_string(ctx, value)?;
        let quote = match self.kind {
            ValueType::Message(_) => !is_written_as_seconds(ctx, value),
            _ => false,
        };
        if quote {
            let mut s = "'".to_owned();
            s.append(text.as_str());
            s.append("'");
            Ok(s)
        } else {
            Ok(text)
        }
    }

    fn absent_value(&self) -> (r: Result<String, Error>)
        ensures
            text_result(r) == absent_field_text(*self),
    {
        match self.column.configured_default() {
            Some(value) => Ok(value),
            None => match self.kind {
                ValueType::Bool => Ok("false".to_owned()),
                ValueType::String => Ok("''".to_owned()),
                ValueType::Message(_) => Ok("{}".to_owned()),
                _ => {
                    let mut text = "For '".to_owned();
                    text.append(self.desc.name.as_str());
                    text.append("' in message");
                    Err(Error::NoProtoDefault(text))
                },
            },
        }
    }
}

fn is_written_as_seconds(ctx: &Schema, value: &Value) -> (b: bool)
    ensures
        b == written_as_seconds(*ctx, *value),
{
    match value {
        Value::Message(message) => crate::protobuf::timestamp_seconds_of(ctx, message).is_some(),
        _ => false,
    }
}

impl MessageBinding {
    /// The row of `message`: for each column that is bound, in the order of
    /// the columns, the literal of its field. The first field without a
    /// literal fails the whole row.
    pub fn prepare(&self, ctx: &Schema, message: &MessageValue) -> (r: Result<
        BTreeMap<usize, String>,
        Error,
    >)
        requires
            self.wf(),
        ensures
            match r {
                Ok(row) => prepared_row(*ctx, *self, *message) == Ok::<RowView, ErrorView>(
                    row_view(row@),
                ),
                Err(e) => prepared_row(*ctx, *self, *message) == Err::<RowView, ErrorView>(e@),
            },
            r matches Ok(row) ==> row@.dom() == self.message_mappings@.dom(),
    {
        proof {
            lemma_row_keys_are_columns(
                *ctx,
                self.message_mappings@,
                *message,
                self.table.columns@.len(),
            );
        }
        let mut results: BTreeMap<usize, String> = BTreeMap::new();
        let n = self.table.columns.len();
        let mut i: usize = 0;
        assert(row_view(results@) =~= Map::empty());
        while i < n
            invariant
                i <= n,
                n == self.table.columns@.len(),
                row_upto(*ctx, self.message_mappings@, *message, i as nat) == Ok::<
                    RowView,
                    ErrorView,
                >(row_view(results@)),
            decreases n - i,
        {
            let ghost before = row_view(results@);
            match self.message_mappings.get(&i) {
                Some(field) => {
                    match field.prepare_field_value(ctx, message) {
                        Ok(value) => {
                            results.insert(i, value);
                            assert(row_view(results@) =~= before.insert(i, value@));
                        },
                        Err(e) => {
                            proof {
                                lemma_row_error_sticks(
                                    *ctx,
                                    self.message_mappings@,
                                    *message,
                                    (i + 1) as nat,
                                    n as nat,
                                );
                            }
                            return Err(e);
                        },
                    }
                },
                None => {},
            }
            i = i + 1;
        }
        assert(results@.dom() =~= self.message_mappings@.dom()) by {
            assert forall|k: usize| results@.contains_key(k) <==> self.message_mappings@.contains_key(
                k,
            ) by {
                assert(row_view(results@).contains_key(k) == results@.contains_key(k));
            }
        }
        Ok(results)
    }
}

} // verus!
