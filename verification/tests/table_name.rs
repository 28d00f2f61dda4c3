use fdb_ch_proto_export::clickhouse_table::ClickhouseTableParts;
use fdb_ch_proto_export::error::Error;

#[test]
fn splits_a_qualified_name() {
    let parts = ClickhouseTableParts::from_string("analytics.events").unwrap();
    assert_eq!(parts.database, "analytics");
    assert_eq!(parts.table, "events");
    assert_eq!(parts.to_string(), "analytics.events");
}

#[test]
fn refuses_a_name_without_a_dot() {
    let r = ClickhouseTableParts::from_string("events");
    assert!(matches!(r, Err(Error::InvalidMappingConfig(_))));
}

#[test]
fn refuses_a_name_with_two_dots() {
    let r = ClickhouseTableParts::from_string("a.b.c");
    assert_eq!(
        r.unwrap_err(),
        Error::InvalidMappingConfig(
            "Invalid table definition. Must specify <database>.<table_name>.".to_string()
        )
    );
}

#[test]
fn errors_as_text() {
    assert_eq!(
        Error::InvalidMappingConfig("no \"dot\"".to_string()).to_string(),
        "Invalid mapping configuration: no \"dot\""
    );
    assert_eq!(
        Error::ParseError("bad \"x\"\n".to_string()).to_string(),
        "Unable to parse: \"bad \\\"x\\\"\\n\""
    );
    assert_eq!(
        Error::NoAvailableColumnBinding("c".to_string()).to_string(),
        "No column binding available for column: \"c\""
    );
    assert_eq!(
        Error::NoProtoDefault("For 'id' in message".to_string()).to_string(),
        "Could not find field or produce default: \"For 'id' in message\""
    );
    assert_eq!(
        Error::MissingConfig("Mapping config not provided".to_string()).to_string(),
        "Could not find config: \"Mapping config not provided\""
    );
    assert_eq!(Error::UnknownValueType.to_string(), "Unknown value type");
    assert_eq!(Error::UnknownValueType.with_detail("!"), "Unknown value type!");
}
