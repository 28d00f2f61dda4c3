use fdb_ch_proto_export::clickhouse::ClickhouseTableColumnRow;
use fdb_ch_proto_export::clickhouse_message_binding::{bind_proto_message, MessageBinding};
use fdb_ch_proto_export::clickhouse_table::{ClickhouseTableParts, Table, TableColumn};
use fdb_ch_proto_export::config::Mapping;
use fdb_ch_proto_export::context::AppContext;
use fdb_ch_proto_export::error::Error;
use fdb_ch_proto_export::export::{ExportDriver, PageEntry, ScanAction, ScanEvent};
use fdb_ch_proto_export::protobuf::{
    value_to_string, EnumDescriptor, EnumRef, EnumSymbol, EnumValue, FieldDescriptor, FieldValue,
    MessageDescriptor, MessageRef, MessageValue, Schema, Value, ValueType,
};
use std::collections::BTreeMap;

fn catalog_row(name: &str, position: u64, raw_type: &str) -> ClickhouseTableColumnRow {
    ClickhouseTableColumnRow {
        name: name.to_string(),
        position,
        raw_type: raw_type.to_string(),
        default_expression: String::new(),
    }
}

fn events_rows() -> Vec<ClickhouseTableColumnRow> {
    vec![catalog_row("id", 1, "UInt64"), catalog_row("name", 2, "Nullable(String)")]
}

fn events_table(rows: Vec<ClickhouseTableColumnRow>) -> Table {
    let columns: Vec<TableColumn> =
        rows.into_iter().map(|r| TableColumn::try_from(r).unwrap()).collect();
    Table::new(ClickhouseTableParts::from_string("analytics.events").unwrap(), columns)
}

fn event_type() -> MessageDescriptor {
    MessageDescriptor {
        full_name: "Event".to_string(),
        fields: vec![
            FieldDescriptor { name: "id".to_string(), number: 1, field_type: ValueType::UInt64 },
            FieldDescriptor { name: "name".to_string(), number: 2, field_type: ValueType::String },
        ],
    }
}

fn schema() -> Schema {
    Schema { messages: vec![event_type()], enums: vec![] }
}

fn event(id: Option<u64>, name: Option<&str>) -> MessageValue {
    let mut fields = vec![];
    if let Some(id) = id {
        fields.push(FieldValue { number: 1, value: Value::UInt64(id) });
    }
    if let Some(name) = name {
        fields.push(FieldValue { number: 2, value: Value::String(name.to_string()) });
    }
    MessageValue { msg_ref: MessageRef(0), fields }
}

fn events_binding() -> MessageBinding {
    bind_proto_message(&event_type(), events_table(events_rows())).unwrap()
}

fn entry(key: &[u8], message: MessageValue) -> PageEntry {
    PageEntry { key: key.to_vec(), message }
}

#[test]
fn scenario_event_without_a_name() {
    let binding = events_binding();
    assert_eq!(binding.message_mappings.len(), 2);
    let row = binding.prepare(&schema(), &event(Some(1), None)).unwrap();
    let mut expected = BTreeMap::new();
    expected.insert(0usize, "1".to_string());
    expected.insert(1usize, "NULL".to_string());
    assert_eq!(row, expected);
    let statement = binding.table.construct_batch(vec![row]);
    assert_eq!(
        statement,
        Some("INSERT INTO analytics.events (id,name) VALUES (1,NULL)".to_string())
    );
}

#[test]
fn scenario_enum_value_is_its_symbol() {
    let schema = Schema {
        messages: vec![],
        enums: vec![EnumDescriptor {
            full_name: "Kind".to_string(),
            symbols: vec![
                EnumSymbol { name: "A".to_string(), value: 0 },
                EnumSymbol { name: "B".to_string(), value: 1 },
            ],
        }],
    };
    let column = TableColumn::try_from(catalog_row("kind", 1, "Enum8('A'=0,'B'=1)")).unwrap();
    assert!(column.is_enum);
    assert_eq!(column._int_size, -8);
    let value = Value::Enum(EnumValue { enum_ref: EnumRef(0), value: 1 });
    assert_eq!(value_to_string(&schema, &value), Ok("'B'".to_string()));
}

#[test]
fn scenario_failed_entry_is_left_out() {
    let binding = events_binding();
    let mut driver = ExportDriver::new(b"a".to_vec(), b"z".to_vec());
    let page = vec![
        entry(b"k1", event(Some(1), Some("one"))),
        entry(b"k2", event(None, Some("two"))),
        entry(b"k3", event(Some(3), None)),
    ];
    let outcome = driver.step(&binding, &schema(), ScanEvent::Page(page));
    match outcome.action {
        ScanAction::Write(statement) => assert_eq!(
            statement,
            "INSERT INTO analytics.events (id,name) VALUES (1,'one'),(3,NULL)"
        ),
        other => panic!("no statement: {:?}", other),
    }
    assert_eq!(driver.cursor.from, b"k3".to_vec());
    assert_eq!(driver.messages_written, 2);
    assert_eq!(outcome.failures.len(), 1);
    assert_eq!(outcome.failures[0].index, 1);
    assert_eq!(
        outcome.failures[0].error,
        Error::NoProtoDefault("For 'id' in message".to_string())
    );
}

#[test]
fn scenario_cursor_stays_at_the_last_row_when_the_last_entry_fails() {
    let binding = events_binding();
    let mut driver = ExportDriver::new(b"a".to_vec(), b"z".to_vec());
    let page = vec![
        entry(b"k1", event(Some(1), None)),
        entry(b"k2", event(None, None)),
    ];
    let outcome = driver.step(&binding, &schema(), ScanEvent::Page(page));
    assert!(matches!(outcome.action, ScanAction::Write(_)));
    assert_eq!(driver.cursor.from, b"k1".to_vec());
    assert_eq!(outcome.failures.len(), 1);
}

#[test]
fn scenario_resume_after_a_stale_transaction() {
    let binding = events_binding();
    let schema = schema();
    let mut driver = ExportDriver::new(b"k0".to_vec(), b"z".to_vec());
    assert_eq!(driver.range(), (b"k0".to_vec(), b"z".to_vec()));

    let first = vec![entry(b"k0", event(Some(0), None)), entry(b"k1", event(Some(1), None))];
    let outcome = driver.step(&binding, &schema, ScanEvent::Page(first));
    match outcome.action {
        ScanAction::Write(statement) => assert_eq!(
            statement,
            "INSERT INTO analytics.events (id,name) VALUES (0,NULL),(1,NULL)"
        ),
        other => panic!("no statement: {:?}", other),
    }
    assert_eq!(driver.cursor.from, b"k1".to_vec());
    assert!(!driver.cursor.skip_first);

    let outcome = driver.step(&binding, &schema, ScanEvent::Stale);
    match outcome.action {
        ScanAction::Reopen { from, to } => {
            assert_eq!(from, b"k1".to_vec());
            assert_eq!(to, b"z".to_vec());
        }
        other => panic!("not reopened: {:?}", other),
    }
    assert!(driver.cursor.skip_first);
    assert_eq!(driver.range(), (b"k1".to_vec(), b"z".to_vec()));

    let second = vec![
        entry(b"k1", event(Some(1), None)),
        entry(b"k2", event(Some(2), None)),
        entry(b"k3", event(Some(3), None)),
        entry(b"k4", event(Some(4), None)),
    ];
    let outcome = driver.step(&binding, &schema, ScanEvent::Page(second));
    match outcome.action {
        ScanAction::Write(statement) => assert_eq!(
            statement,
            "INSERT INTO analytics.events (id,name) VALUES (2,NULL),(3,NULL),(4,NULL)"
        ),
        other => panic!("no statement: {:?}", other),
    }
    assert!(!driver.cursor.skip_first);
    assert_eq!(driver.cursor.from, b"k4".to_vec());
    assert_eq!(driver.messages_written, 5);

    let outcome = driver.step(&binding, &schema, ScanEvent::End);
    assert!(matches!(outcome.action, ScanAction::Finished(5)));
    assert!(driver.done);
    let outcome = driver.step(&binding, &schema, ScanEvent::Stale);
    assert!(matches!(outcome.action, ScanAction::Finished(5)));
    assert!(!driver.cursor.skip_first);
}

#[test]
fn stale_before_any_page_keeps_the_flag_over_an_empty_page() {
    let binding = events_binding();
    let schema = schema();
    let mut driver = ExportDriver::new(b"a".to_vec(), b"z".to_vec());
    driver.step(&binding, &schema, ScanEvent::Stale);
    let outcome = driver.step(&binding, &schema, ScanEvent::Page(vec![]));
    assert!(matches!(outcome.action, ScanAction::Next));
    assert!(driver.cursor.skip_first);
    let outcome =
        driver.step(&binding, &schema, ScanEvent::Page(vec![entry(b"a", event(Some(1), None))]));
    assert!(matches!(outcome.action, ScanAction::Next));
    assert!(!driver.cursor.skip_first);
    assert_eq!(driver.cursor.from, b"a".to_vec());
    assert_eq!(driver.messages_written, 0);
}

#[test]
fn a_page_without_rows_asks_for_no_write() {
    let binding = events_binding();
    let mut driver = ExportDriver::new(b"a".to_vec(), b"z".to_vec());
    let page = vec![entry(b"k1", event(None, None))];
    let outcome = driver.step(&binding, &schema(), ScanEvent::Page(page));
    assert!(matches!(outcome.action, ScanAction::Next));
    assert_eq!(driver.cursor.from, b"a".to_vec());
    assert_eq!(outcome.failures.len(), 1);
}

#[test]
fn the_keys_of_a_mapping_are_the_bytes_of_its_texts() {
    let mapping = Mapping {
        from: "a\u{e9}".to_string(),
        to: "b".to_string(),
        proto: "Event".to_string(),
        table: "analytics.events".to_string(),
        custom_field_mapping: None,
    };
    let driver = ExportDriver::for_mapping(&mapping);
    assert_eq!(driver.cursor.from, "a\u{e9}".as_bytes().to_vec());
    assert_eq!(driver.to, b"b".to_vec());
    assert!(!driver.cursor.skip_first);
    assert_eq!(driver.messages_written, 0);
}

fn mapping(proto: &str, table: &str) -> Mapping {
    Mapping {
        from: "a".to_string(),
        to: "z".to_string(),
        proto: proto.to_string(),
        table: table.to_string(),
        custom_field_mapping: None,
    }
}

#[test]
fn scenario_duplicate_binding_is_refused() {
    let schema = Schema {
        messages: vec![MessageDescriptor {
            full_name: "Foo".to_string(),
            fields: vec![FieldDescriptor {
                name: "id".to_string(),
                number: 1,
                field_type: ValueType::UInt64,
            }],
        }],
        enums: vec![],
    };
    let mut context = AppContext::new();
    let first = context.plan_binding(&mapping("Foo", "db.one"), &schema).unwrap();
    assert_eq!(first.message, MessageRef(0));
    assert_eq!(first.table.to_string(), "db.one");
    let bound = context.bind_message(
        &schema.messages[0],
        first.table,
        &vec![catalog_row("id", 1, "UInt64")],
    );
    assert_eq!(bound, Ok(true));
    assert_eq!(context.to_string(), vec!["Foo: db.one".to_string()]);

    let second = context.plan_binding(&mapping("Foo", "db.two"), &schema);
    assert_eq!(
        second.unwrap_err(),
        Error::InvalidMappingConfig("Message Foo is already binded to db.one".to_string())
    );
    let again = context.bind_message(
        &schema.messages[0],
        ClickhouseTableParts::from_string("db.two").unwrap(),
        &vec![catalog_row("id", 1, "UInt64")],
    );
    assert_eq!(
        again,
        Err(Error::InvalidMappingConfig("Message Foo is already binded to db.one".to_string()))
    );
    assert_eq!(context.proto_registry.bindings.len(), 1);
}

#[test]
fn unknown_message_is_refused() {
    let context = AppContext::new();
    let r = context.plan_binding(&mapping("Missing", "db.one"), &schema());
    assert_eq!(
        r.unwrap_err(),
        Error::ParseError("Could not find message definition".to_string())
    );
}

#[test]
fn malformed_table_name_is_refused() {
    let context = AppContext::new();
    let r = context.plan_binding(&mapping("Event", "events"), &schema());
    assert!(matches!(r, Err(Error::InvalidMappingConfig(_))));
}

#[test]
fn table_without_columns_is_passed_over() {
    let mut context = AppContext::new();
    let parts = ClickhouseTableParts::from_string("db.empty").unwrap();
    assert_eq!(context.bind_message(&event_type(), parts, &vec![]), Ok(false));
    assert!(context.proto_registry.get("Event").is_none());
    let parts = ClickhouseTableParts::from_string("db.events").unwrap();
    assert_eq!(context.bind_message(&event_type(), parts, &events_rows()), Ok(true));
    assert_eq!(context.proto_registry.get("Event").unwrap().table.parts.table, "events");
}

#[test]
fn column_type_error_fails_the_binding() {
    let mut context = AppContext::new();
    let parts = ClickhouseTableParts::from_string("db.events").unwrap();
    let rows = vec![catalog_row("id", 1, "UInt64"), catalog_row("pair", 2, "Tuple(Int8, Int16)")];
    assert_eq!(
        context.bind_message(&event_type(), parts, &rows),
        Err(Error::ParseError("Ambiguous integer type".to_string()))
    );
    assert_eq!(context.proto_registry.bindings.len(), 0);
}

#[test]
fn every_same_named_column_is_bound() {
    let binding = events_binding();
    for i in 0..binding.table.columns.len() {
        let field = binding.message_mappings.get(&i).unwrap();
        assert_eq!(field.desc.name, binding.table.columns[i].name);
        assert_eq!(field.column.position as usize, i + 1);
    }
}

#[test]
fn column_without_a_field_stays_unbound() {
    let mut rows = events_rows();
    rows.push(catalog_row("extra", 3, "String"));
    rows.push(catalog_row("Name", 4, "String"));
    let binding = bind_proto_message(&event_type(), events_table(rows)).unwrap();
    assert_eq!(binding.full_name, "Event");
    assert_eq!(binding.message_mappings.len(), 2);
    assert!(binding.message_mappings.get(&2).is_none());
    assert!(binding.message_mappings.get(&3).is_none());
    let row = binding.prepare(&schema(), &event(Some(5), Some("x"))).unwrap();
    assert_eq!(row.len(), 2);
    assert_eq!(
        binding.table.construct_batch(vec![row]),
        Some("INSERT INTO analytics.events (id,name,extra,Name) VALUES (5,'x','','')".to_string())
    );
}

#[test]
fn rows_that_cannot_be_completed_are_reported_and_not_counted() {
    let mut rows = events_rows();
    rows.push(catalog_row("extra", 3, "Int32"));
    let binding = bind_proto_message(&event_type(), events_table(rows)).unwrap();
    let mut driver = ExportDriver::new(b"a".to_vec(), b"z".to_vec());
    let page = vec![entry(b"k1", event(Some(1), None)), entry(b"k2", event(Some(2), None))];
    let outcome = driver.step(&binding, &schema(), ScanEvent::Page(page));
    assert!(matches!(outcome.action, ScanAction::Next));
    assert_eq!(outcome.failures.len(), 0);
    assert_eq!(outcome.discarded.len(), 2);
    assert_eq!(outcome.discarded[0].row, 0);
    assert_eq!(outcome.discarded[0].column, 2);
    assert_eq!(outcome.discarded[1].row, 1);
    assert_eq!(driver.messages_written, 0);
    assert_eq!(driver.cursor.from, b"k2".to_vec());
}

#[test]
fn entry_without_a_number_fails_alone_on_a_string_column() {
    let rows = vec![catalog_row("id", 1, "String"), catalog_row("name", 2, "Nullable(String)")];
    let binding = bind_proto_message(&event_type(), events_table(rows)).unwrap();
    let schema = schema();
    assert_eq!(
        binding.prepare(&schema, &event(None, Some("two"))),
        Err(Error::NoProtoDefault("For 'id' in message".to_string()))
    );
    let first = binding.prepare(&schema, &event(Some(1), Some("one"))).unwrap();
    let third = binding.prepare(&schema, &event(Some(3), None)).unwrap();

    let mut driver = ExportDriver::new(b"a".to_vec(), b"z".to_vec());
    let page = vec![
        entry(b"k1", event(Some(1), Some("one"))),
        entry(b"k2", event(None, Some("two"))),
        entry(b"k3", event(Some(3), None)),
    ];
    let outcome = driver.step(&binding, &schema, ScanEvent::Page(page));
    assert_eq!(outcome.failures.len(), 1);
    assert_eq!(outcome.failures[0].index, 1);
    match outcome.action {
        ScanAction::Write(statement) => {
            assert_eq!(Some(statement), binding.table.construct_batch(vec![first, third]))
        }
        other => panic!("no statement: {:?}", other),
    }
    assert_eq!(driver.cursor.from, b"k3".to_vec());
}

#[test]
fn binding_made_by_binding_is_well_formed() {
    let mut binding = events_binding();
    assert!(binding.is_well_formed());
    let stray = binding.message_mappings.remove(&1).unwrap();
    assert!(binding.is_well_formed());
    binding.message_mappings.insert(7, stray);
    assert!(!binding.is_well_formed());
    let stray = binding.message_mappings.remove(&7).unwrap();
    binding.message_mappings.insert(0, stray);
    assert!(!binding.is_well_formed());
}

#[test]
fn row_has_a_literal_for_every_bound_column() {
    let binding = events_binding();
    let row = binding.prepare(&schema(), &event(Some(1), Some("x"))).unwrap();
    let keys: Vec<usize> = row.keys().copied().collect();
    assert_eq!(keys, vec![0, 1]);
}
