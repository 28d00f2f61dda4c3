//! Protobuf schemas and decoded messages as plain data, and the SQL literal
//! of a decoded value.
//!
//! Decoding bytes against a schema is the work of a protobuf library; what it
//! hands over is written down in the types of this module.
use crate::error::{Error, ErrorView, text_result};
use crate::find::{first_where, lemma_first_where, lemma_first_where_is, lemma_first_where_none};
use crate::number::{decimal, signed_to_string, unsigned_to_string};
use crate::text::{join, join_with, replace, replace_char, same_text, texts};
use vstd::prelude::*;
use vstd::string::*;

verus! {

/// A message type of a schema, by its place in [`Schema::messages`].
#[derive(Clone, Copy, Debug, PartialEq, Eq, Structural)]
pub struct MessageRef(pub usize);

/// An enum type of a schema, by its place in [`Schema::enums`].
#[derive(Clone, Copy, Debug, PartialEq, Eq, Structural)]
pub struct EnumRef(pub usize);

/// The kind of values that a field is declared to hold.
#[derive(Clone, Copy, Debug, PartialEq, Eq, Structural)]
pub enum ValueType {
    Double,
    Float,
    Int32,
    Int64,
    UInt32,
    UInt64,
    SInt32,
    SInt64,
    Fixed32,
    Fixed64,
    SFixed32,
    SFixed64,
    Bool,
    String,
    Bytes,
    Message(MessageRef),
    Enum(EnumRef),
}

/// A field of a message type.
#[derive(Debug)]
pub struct FieldDescriptor {
    pub name: String,
    pub number: u64,
    pub field_type: ValueType,
}

impl Clone for FieldDescriptor {
    fn clone(&self) -> (r: Self)
        ensures
            r == *self,
    {
        FieldDescriptor {
            name: self.name.clone(),
            number: self.number,
            field_type: self.field_type,
        }
    }
}

/// A message type: its full name, package and parent types included, and its
/// fields.
#[derive(Debug)]
pub struct MessageDescriptor {
    pub full_name: String,
    pub fields: Vec<FieldDescriptor>,
}

/// One symbol of an enum type.
#[derive(Debug)]
pub struct EnumSymbol {
    pub name: String,
    pub value: i64,
}

/// An enum type.
#[derive(Debug)]
pub struct EnumDescriptor {
    pub full_name: String,
    pub symbols: Vec<EnumSymbol>,
}

/// The message and enum types that a run knows.
#[derive(Debug)]
pub struct Schema {
    pub messages: Vec<MessageDescriptor>,
    pub enums: Vec<EnumDescriptor>,
}

/// A decoded value. A floating-point number comes as its decimal text.
#[derive(Debug)]
pub enum Value {
    Double(String),
    Float(String),
    Int32(i32),
    Int64(i64),
    UInt32(u32),
    UInt64(u64),
    SInt32(i32),
    SInt64(i64),
    Fixed32(u32),
    Fixed64(u64),
    SFixed32(i32),
    SFixed64(i64),
    Bool(bool),
    String(String),
    Bytes(Vec<u8>),
    /// A repeated field of scalars, packed.
    Packed,
    Message(Box<MessageValue>),
    Enum(EnumValue),
    /// A value that the payload ended in the middle of.
    Incomplete,
    /// A value of a field that the schema does not know.
    Unknown,
}

/// A decoded enum value: its type and its number.
#[derive(Clone, Copy, Debug, PartialEq, Eq, Structural)]
pub struct EnumValue {
    pub enum_ref: EnumRef,
    pub value: i64,
}

/// A decoded message: its type and the fields that the payload held, in the
/// payload's order.
#[derive(Debug)]
pub struct MessageValue {
    pub msg_ref: MessageRef,
    pub fields: Vec<FieldValue>,
}

/// One decoded field.
#[derive(Debug)]
pub struct FieldValue {
    pub number: u64,
    pub value: Value,
}

/// The full name of the well-known timestamp type.
pub open spec fn timestamp_name() -> Seq<char> {
    "google.protobuf.Timestamp"@
}

/// What is said of a value that has no literal.
pub open spec fn unsupported_value() -> ErrorView {
    ErrorView::ParseError("Unsupported prototype"@)
}

/// The message type that `r` names in `schema`, if it names one.
pub open spec fn resolved_message(schema: Schema, r: MessageRef) -> Option<MessageDescriptor> {
    if r.0 < schema.messages@.len() {
        Some(schema.messages@[r.0 as int])
    } else {
        None
    }
}

/// The place of the first message type of `schema` with that full name.
pub open spec fn message_named(schema: Schema, full_name: Seq<char>) -> Option<int> {
    first_where(schema.messages@, |m: MessageDescriptor| m.full_name@ == full_name)
}

/// The place of the first field of `message` with that number.
pub open spec fn field_numbered(message: MessageDescriptor, number: u64) -> Option<int> {
    first_where(message.fields@, |f: FieldDescriptor| f.number == number)
}

/// The place of the first field of `message` with that name.
pub open spec fn field_named(message: MessageDescriptor, name: Seq<char>) -> Option<int> {
    first_where(message.fields@, |f: FieldDescriptor| f.name@ == name)
}

/// The name of the field with that number in the message type that `r`
/// names.
pub open spec fn field_name(schema: Schema, r: MessageRef, number: u64) -> Option<Seq<char>> {
    match resolved_message(schema, r) {
        None => None,
        Some(message) => match field_numbered(message, number) {
            None => None,
            Some(i) => Some(message.fields@[i].name@),
        },
    }
}

/// The name of the first symbol with that number in the enum type that `r`
/// names.
pub open spec fn enum_symbol(schema: Schema, r: EnumRef, value: i64) -> Option<Seq<char>> {
    if r.0 < schema.enums@.len() {
        let symbols = schema.enums@[r.0 as int].symbols@;
        match first_where(symbols, |s: EnumSymbol| s.value == value) {
            None => None,
            Some(i) => Some(symbols[i].name@),
        }
    } else {
        None
    }
}

/// The JSON text of a string, quotes included, as `serde_json::to_string`
/// writes it.
pub uninterp spec fn json_string(text: Seq<char>) -> Seq<char>;

/// The members of a JSON object: each a name and a value, both as JSON text.
pub type Members = Seq<(Seq<char>, Seq<char>)>;

/// The condition of being the member of that name.
pub open spec fn named(name: Seq<char>) -> spec_fn((Seq<char>, Seq<char>)) -> bool {
    |m: (Seq<char>, Seq<char>)| m.0 == name
}

/// `members` with `name` set to `value`: in the place where the name stood,
/// or at the end where it did not stand.
pub open spec fn with_member(members: Members, name: Seq<char>, value: Seq<char>) -> Members {
    match first_where(members, named(name)) {
        Some(i) => members.update(i, (name, value)),
        None => members.push((name, value)),
    }
}

/// No name stands twice among the members.
pub open spec fn member_names_distinct(members: Members) -> bool {
    forall|i: int, j: int|
        0 <= i < j < members.len() ==> (#[trigger] members[i]).0 != (#[trigger] members[j]).0
}

/// Setting a member leaves every name where it stood and lets none stand
/// twice.
pub proof fn lemma_with_member_keeps_names_distinct(
    members: Members,
    name: Seq<char>,
    value: Seq<char>,
)
    requires
        member_names_distinct(members),
    ensures
        member_names_distinct(with_member(members, name, value)),
        forall|i: int|
            0 <= i < members.len() ==> (#[trigger] with_member(members, name, value)[i]).0
                == members[i].0,
{
    lemma_first_where(members, named(name));
    let after = with_member(members, name, value);
    assert(after.len() >= members.len());
    assert forall|i: int| 0 <= i < members.len() implies (#[trigger] after[i]).0
        == members[i].0 by {}
    assert forall|i: int, j: int| 0 <= i < j < after.len() implies (#[trigger] after[i]).0 != (
    #[trigger] after[j]).0 by {
        if j < members.len() {
            assert(members[i].0 != members[j].0);
        }
    }
}

/// The JSON object of `members`, written without blanks, and without the
/// single quotes that its texts hold.
pub open spec fn object_text(members: Members) -> Seq<char> {
    replace_char(
        "{"@ + join(Seq::new(members.len(), |i: int| members[i].0 + ":"@ + members[i].1), ","@)
            + "}"@,
        '\'',
        Seq::empty(),
    )
}

/// The seconds of a timestamp: the first field with number 1 of a message of
/// the well-known timestamp type, where it is a 64-bit integer.
pub open spec fn timestamp_seconds(schema: Schema, message: MessageValue) -> Option<i64> {
    match resolved_message(schema, message.msg_ref) {
        None => None,
        Some(described) => if described.full_name@ == timestamp_name() {
            match first_where(message.fields@, |f: FieldValue| f.number == 1) {
                None => None,
                Some(i) => match message.fields@[i].value {
                    Value::Int64(seconds) => Some(seconds),
                    _ => None,
                },
            }
        } else {
            None
        },
    }
}

/// The literal of a string: between single quotes, each single quote in it
/// with a backslash before it.
pub open spec fn quoted(text: Seq<char>) -> Seq<char> {
    "'"@ + replace_char(text, '\'', "\\'"@) + "'"@
}

/// The SQL literal of a decoded value.
///
/// A number is its decimal text, a boolean `true` or `false`, a string its
/// quoted text, an enum value its symbol between single quotes. A timestamp
/// is its seconds. Any other message is a JSON object of its fields, by name,
/// each with its own literal as a JSON string. Bytes, packed fields and what
/// the decoder could not read have no literal.
pub open spec fn value_text(schema: Schema, value: Value) -> Result<Seq<char>, ErrorView>
    decreases value,
{
    match value {
        Value::Double(text) => Ok(text@),
        Value::Float(text) => Ok(text@),
        Value::Int32(v) => Ok(decimal(v as int)),
        Value::Int64(v) => Ok(decimal(v as int)),
        Value::UInt32(v) => Ok(decimal(v as int)),
        Value::UInt64(v) => Ok(decimal(v as int)),
        Value::SInt32(v) => Ok(decimal(v as int)),
        Value::SInt64(v) => Ok(decimal(v as int)),
        Value::Fixed32(v) => Ok(decimal(v as int)),
        Value::Fixed64(v) => Ok(decimal(v as int)),
        Value::SFixed32(v) => Ok(decimal(v as int)),
        Value::SFixed64(v) => Ok(decimal(v as int)),
        Value::Bool(v) => Ok(
            if v {
                "true"@
            } else {
                "false"@
            },
        ),
        Value::String(text) => Ok(quoted(text@)),
        Value::Enum(e) => match enum_symbol(schema, e.enum_ref, e.value) {
            Some(name) => Ok("'"@ + name + "'"@),
            None => Err(ErrorView::UnknownValueType),
        },
        Value::Message(message) => message_text(schema, *message),
        _ => Err(unsupported_value()),
    }
}

/// The SQL literal of a decoded message, without quotes around it.
pub open spec fn message_text(schema: Schema, message: MessageValue) -> Result<Seq<char>, ErrorView>
    decreases message,
{
    match timestamp_seconds(schema, message) {
        Some(seconds) => Ok(decimal(seconds as int)),
        None => match message_members(schema, message.msg_ref, message.fields@) {
            Err(e) => Err(e),
            Ok(members) => Ok(object_text(members)),
        },
    }
}

/// The members of the JSON object of a message with those fields: for each
/// field its name and its literal, both as JSON strings; a later field of the
/// same name takes the earlier one's place. The first field that has no name
/// or no literal decides the error.
pub open spec fn message_members(schema: Schema, r: MessageRef, fields: Seq<FieldValue>) -> Result<
    Members,
    ErrorView,
>
    decreases fields,
{
    if fields.len() == 0 {
        Ok(Seq::empty())
    } else {
        match message_members(schema, r, fields.drop_last()) {
            Err(e) => Err(e),
            Ok(members) => match field_name(schema, r, fields.last().number) {
                None => Err(ErrorView::UnknownValueType),
                Some(name) => match value_text(schema, fields.last().value) {
                    Err(e) => Err(e),
                    Ok(text) => Ok(with_member(members, json_string(name), json_string(text))),
                },
            },
        }
    }
}

/// Writes `text` as a JSON string with `serde_json::to_string`. Nothing is
/// proved of the escaping; the contract gives the text its name, which rests
/// on the text being a function of the argument alone. It also says that the
/// call succeeds: for a string, `serde_json` only appends bytes to a vector,
/// which reports no error.
#[verifier::external_body]
fn to_json_string(text: &str) -> (r: Option<String>)
    ensures
        r is Some,
        r matches Some(s) ==> s@ == json_string(text@),
{
    serde_json::to_string(text).ok()
}

/// The contents of members held as strings.
pub open spec fn members_view(members: Seq<(String, String)>) -> Members {
    Seq::new(members.len(), |i: int| (members[i].0@, members[i].1@))
}

impl Schema {
    /// The message type that `r` names, if it names one.
    pub fn resolve_message(&self, r: MessageRef) -> (found: Option<&MessageDescriptor>)
        ensures
            match found {
                Some(m) => resolved_message(*self, r) == Some(*m),
                None => resolved_message(*self, r) is None,
            },
    {
        if r.0 < self.messages.len() {
            Some(&self.messages[r.0])
        } else {
            None
        }
    }

    /// The first message type with that full name.
    pub fn get_message(&self, full_name: &str) -> (found: Option<MessageRef>)
        ensures
            match found {
                Some(r) => message_named(*self, full_name@) == Some(r.0 as int),
                None => message_named(*self, full_name@) is None,
            },
    {
        let ghost p = |m: MessageDescriptor| m.full_name@ == full_name@;
        let mut i: usize = 0;
        while i < self.messages.len()
            invariant
                i <= self.messages@.len(),
                p == |m: MessageDescriptor| m.full_name@ == full_name@,
                forall|j: int| 0 <= j < i ==> !p(self.messages@[j]),
            decreases self.messages.len() - i,
        {
            if same_text(self.messages[i].full_name.as_str(), full_name) {
                proof {
                    lemma_first_where_is(self.messages@, p, i as int);
                }
                return Some(MessageRef(i));
            }
            i = i + 1;
        }
        proof {
            lemma_first_where_none(self.messages@, p);
        }
        None
    }

    /// The name of the first symbol with the number `value` in the enum type
    /// that `r` names.
    pub fn resolve_enum_symbol(&self, r: EnumRef, value: i64) -> (found: Option<String>)
        ensures
            match found {
                Some(name) => enum_symbol(*self, r, value) == Some(name@),
                None => enum_symbol(*self, r, value) is None,
            },
    {
        if r.0 >= self.enums.len() {
            return None;
        }
        let symbols = &self.enums[r.0].symbols;
        let ghost p = |s: EnumSymbol| s.value == value;
        let mut i: usize = 0;
        while i < symbols.len()
            invariant
                i <= symbols@.len(),
                r.0 < self.enums@.len(),
                symbols@ == self.enums@[r.0 as int].symbols@,
                p == |s: EnumSymbol| s.value == value,
                forall|j: int| 0 <= j < i ==> !p(symbols@[j]),
            decreases symbols.len() - i,
        {
            if symbols[i].value == value {
                proof {
                    lemma_first_where_is(symbols@, p, i as int);
                }
                return Some(symbols[i].name.clone());
            }
            i = i + 1;
        }
        proof {
            lemma_first_where_none(symbols@, p);
        }
        None
    }
}

impl MessageDescriptor {
    /// The first field with that number.
    pub fn get_field(&self, number: u64) -> (found: Option<&FieldDescriptor>)
        ensures
            match found {
                Some(f) => field_numbered(*self, number) matches Some(i) && self.fields@[i] == *f,
                None => field_numbered(*self, number) is None,
            },
    {
        let ghost p = |f: FieldDescriptor| f.number == number;
        let mut i: usize = 0;
        while i < self.fields.len()
            invariant
                i <= self.fields@.len(),
                p == |f: FieldDescriptor| f.number == number,
                forall|j: int| 0 <= j < i ==> !p(self.fields@[j]),
            decreases self.fields.len() - i,
        {
            if self.fields[i].number == number {
                proof {
                    lemma_first_where_is(self.fields@, p, i as int);
                }
                return Some(&self.fields[i]);
            }
            i = i + 1;
        }
        proof {
            lemma_first_where_none(self.fields@, p);
        }
        None
    }

    /// The first field with that name.
    pub fn get_field_by_name(&self, name: &str) -> (found: Option<&FieldDescriptor>)
        ensures
            match found {
                Some(f) => field_named(*self, name@) matches Some(i) && self.fields@[i] == *f,
                None => field_named(*self, name@) is None,
            },
    {
        let ghost p = |f: FieldDescriptor| f.name@ == name@;
        let mut i: usize = 0;
        while i < self.fields.len()
            invariant
                i <= self.fields@.len(),
                p == |f: FieldDescriptor| f.name@ == name@,
                forall|j: int| 0 <= j < i ==> !p(self.fields@[j]),
            decreases self.fields.len() - i,
        {
            if same_text(self.fields[i].name.as_str(), name) {
                proof {
                    lemma_first_where_is(self.fields@, p, i as int);
                }
                return Some(&self.fields[i]);
            }
            i = i + 1;
        }
        proof {
            lemma_first_where_none(self.fields@, p);
        }
        None
    }
}

/// Sets `name` to `value` among `members`: in the place where the name
/// stands, or at the end where it does not stand.
pub fn put_member(members: &mut Vec<(String, String)>, name: String, value: String)
    ensures
        members_view(final(members)@) == with_member(members_view(old(members)@), name@, value@),
{
    let ghost before = members_view(members@);
    let ghost p = named(name@);
    let mut i: usize = 0;
    while i < members.len()
        invariant
            i <= members@.len(),
            members@ == old(members)@,
            before == members_view(members@),
            p == named(name@),
            forall|j: int| 0 <= j < i ==> !p(before[j]),
        decreases members.len() - i,
    {
        if same_text(members[i].0.as_str(), name.as_str()) {
            proof {
                lemma_first_where_is(before, p, i as int);
            }
            members[i] = (name, value);
            assert(members_view(members@) =~= before.update(i as int, (name@, value@)));
            return ;
        }
        i = i + 1;
    }
    proof {
        lemma_first_where_none(before, p);
    }
    members.push((name, value));
    assert(members_view(members@) =~= before.push((name@, value@)));
}

/// The JSON object of `members`, each a name and a value that are JSON text
/// already: written without blanks, and without the single quotes that its
/// texts hold.
pub fn object_to_string(members: &Vec<(String, String)>) -> (s: String)
    ensures
        s@ == object_text(members_view(members@)),
{
    let mut parts: Vec<String> = Vec::new();
    let mut i: usize = 0;
    while i < members.len()
        invariant
            i <= members@.len(),
            parts@.len() == i,
            forall|j: int|
                0 <= j < i ==> (#[trigger] parts@[j])@ == members@[j].0@ + ":"@ + members@[j].1@,
        decreases members.len() - i,
    {
        let mut part = members[i].0.clone();
        part.append(":");
        part.append(members[i].1.as_str());
        parts.push(part);
        i = i + 1;
    }
    let ghost model = members_view(members@);
    assert(texts(parts@) =~= Seq::new(model.len(), |i: int| model[i].0 + ":"@ + model[i].1));
    let mut object = "{".to_owned();
    object.append(join_with(&parts, ",").as_str());
    object.append("}");
    proof {
        reveal_strlit("");
        assert(""@ =~= Seq::<char>::empty());
    }
    replace(object.as_str(), '\'', "")
}

/// The members of a message's object have each name once.
pub proof fn lemma_message_members_distinct(schema: Schema, r: MessageRef, fields: Seq<FieldValue>)
    ensures
        message_members(schema, r, fields) matches Ok(members) ==> member_names_distinct(members),
    decreases fields.len(),
{
    if fields.len() > 0 {
        lemma_message_members_distinct(schema, r, fields.drop_last());
        match message_members(schema, r, fields.drop_last()) {
            Ok(members) => {
                if message_members(schema, r, fields) is Ok {
                    let name = field_name(schema, r, fields.last().number)->0;
                    let text = value_text(schema, fields.last().value)->Ok_0;
                    lemma_with_member_keeps_names_distinct(
                        members,
                        json_string(name),
                        json_string(text),
                    );
                }
            },
            Err(_) => {},
        }
    }
}

/// Once a field decides an error, the fields behind it change nothing.
pub proof fn lemma_members_error_sticks(
    schema: Schema,
    r: MessageRef,
    fields: Seq<FieldValue>,
    k: int,
)
    requires
        0 <= k <= fields.len(),
        message_members(schema, r, fields.take(k)) is Err,
    ensures
        message_members(schema, r, fields) == message_members(schema, r, fields.take(k)),
    decreases fields.len() - k,
{
    if k == fields.len() {
        assert(fields.take(k) =~= fields);
    } else {
        assert(fields.take(k + 1).drop_last() =~= fields.take(k));
        lemma_members_error_sticks(schema, r, fields, k + 1);
    }
}

pub(crate) fn timestamp_seconds_of(context: &Schema, message: &MessageValue) -> (r: Option<i64>)
    ensures
        r == timestamp_seconds(*context, *message),
{
    let described = match context.resolve_message(message.msg_ref) {
        Some(described) => described,
        None => {
            return None;
        },
    };
    if !same_text(described.full_name.as_str(), "google.protobuf.Timestamp") {
        return None;
    }
    let ghost p = |f: FieldValue| f.number == 1;
    let mut i: usize = 0;
    while i < message.fields.len()
        invariant
            i <= message.fields@.len(),
            resolved_message(*context, message.msg_ref) == Some(*described),
            described.full_name@ == timestamp_name(),
            p == |f: FieldValue| f.number == 1,
            forall|j: int| 0 <= j < i ==> !p(message.fields@[j]),
        decreases message.fields.len() - i,
    {
        if message.fields[i].number == 1 {
            proof {
                lemma_first_where_is(message.fields@, p, i as int);
            }
            return match &message.fields[i].value {
                Value::Int64(seconds) => Some(*seconds),
                _ => None,
            };
        }
        i = i + 1;
    }
    proof {
        lemma_first_where_none(message.fields@, p);
    }
    None
}

fn field_name_of(context: &Schema, r: MessageRef, number: u64) -> (found: Option<String>)
    ensures
        match found {
            Some(name) => field_name(*context, r, number) == Some(name@),
            None => field_name(*context, r, number) is None,
        },
{
    match context.resolve_message(r) {
        None => None,
        Some(message) => match message.get_field(number) {
            None => None,
            Some(field) => Some(field.name.clone()),
        },
    }
}

/// The SQL literal of a decoded value, as [`value_text`] defines it.
pub fn value_to_string(context: &Schema, value: &Value) -> (r: Result<String, Error>)
    ensures
        text_result(r) == value_text(*context, *value),
    decreases value,
{
    match value {
        Value::Double(text) => Ok(text.clone()),
        Value::Float(text) => Ok(text.clone()),
        Value::Int32(v) => Ok(signed_to_string(*v as i64)),
        Value::Int64(v) => Ok(signed_to_string(*v)),
        Value::UInt32(v) => Ok(unsigned_to_string(*v as u64)),
        Value::UInt64(v) => Ok(unsigned_to_string(*v)),
        Value::SInt32(v) => Ok(signed_to_string(*v as i64)),
        Value::SInt64(v) => Ok(signed_to_string(*v)),
        Value::Fixed32(v) => Ok(unsigned_to_string(*v as u64)),
        Value::Fixed64(v) => Ok(unsigned_to_string(*v)),
        Value::SFixed32(v) => Ok(signed_to_string(*v as i64)),
        Value::SFixed64(v) => Ok(signed_to_string(*v)),
        Value::Bool(v) => Ok(
            if *v {
                "true".to_owned()
            } else {
                "false".to_owned()
            },
        ),
        Value::String(text) => {
            let mut s = "'".to_owned();
            s.append(replace(text.as_str(), '\'', "\\'").as_str());
            s.append("'");
            Ok(s)
        },
        Value::Enum(e) => match context.resolve_enum_symbol(e.enum_ref, e.value) {
            Some(name) => {
                let mut s = "'".to_owned();
                s.append(name.as_str());
                s.append("'");
                Ok(s)
            },
            None => Err(Error::UnknownValueType),
        },
        Value::Message(message) => message_to_string(context, message),
        _ => Err(Error::parse_error("Unsupported prototype")),
    }
}

/// The SQL literal of a decoded message, without quotes around it, as
/// [`message_text`] defines it.
pub fn message_to_string(context: &Schema, message: &MessageValue) -> (r: Result<String, Error>)
    ensures
        text_result(r) == message_text(*context, *message),
    decreases message,
{
    match timestamp_seconds_of(context, message) {
        Some(seconds) => {
            return Ok(signed_to_string(seconds));
        },
        None => {},
    }
    let ghost fields = message.fields@;
    let mut members: Vec<(String, String)> = Vec::new();
    let mut i: usize = 0;
    assert(members_view(members@) =~= Seq::empty());
    assert(fields.take(0).len() == 0);
    while i < message.fields.len()
        invariant
            i <= message.fields@.len(),
            fields == message.fields@,
            timestamp_seconds(*context, *message) is None,
            message_members(*context, message.msg_ref, fields.take(i as int)) == Ok::<
                Members,
                ErrorView,
            >(members_view(members@)),
        decreases message.fields.len() - i,
    {
        let field = &message.fields[i];
        proof {
            assert(fields.take(i + 1).drop_last() =~= fields.take(i as int));
            assert(fields.take(i + 1).last() == *field);
        }
        let name = match field_name_of(context, message.msg_ref, field.number) {
            Some(name) => name,
            None => {
                proof {
                    lemma_members_error_sticks(*context, message.msg_ref, fields, i + 1);
                }
                return Err(Error::UnknownValueType);
            },
        };
        let text = match value_to_string(context, &field.value) {
            Ok(text) => text,
            Err(e) => {
                proof {
                    lemma_members_error_sticks(*context, message.msg_ref, fields, i + 1);
                }
                return Err(e);
            },
        };
        let quoted_name = to_json_string(name.as_str()).unwrap();
        let quoted_text = to_json_string(text.as_str()).unwrap();
        put_member(&mut members, quoted_name, quoted_text);
        i = i + 1;
    }
    assert(fields.take(fields.len() as int) =~= fields);
    Ok(object_to_string(&members))
}

} // verus!
