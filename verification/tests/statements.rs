use fdb_ch_proto_export::cli::SetArgs;
use fdb_ch_proto_export::clickhouse_table::{
    ClickhouseTableParts, RowDiscard, Table, TableColumn,
};
use fdb_ch_proto_export::config::{FdbCliConfig, Overrides, SinkConnection};
use fdb_ch_proto_export::error::Error;
use fdb_ch_proto_export::postgres::TableColumnRow;
use std::collections::BTreeMap;

fn column(name: &str, position: u64, raw_type: &str, nullable: bool, default: &str) -> TableColumn {
    TableColumn {
        name: name.to_string(),
        position,
        raw_type: raw_type.to_string(),
        default_expression: default.to_string(),
        nullable,
        _int_size: 0,
        is_enum: false,
    }
}

fn table() -> Table {
    Table::new(
        ClickhouseTableParts { database: "db".to_string(), table: "t".to_string() },
        vec![
            column("a", 1, "Int32", false, ""),
            column("b", 2, "String", false, ""),
            column("c", 3, "Int32", true, "5"),
            column("d", 4, "Int32", false, "now()"),
        ],
    )
}

fn row(cells: &[(usize, &str)]) -> BTreeMap<usize, String> {
    cells.iter().map(|(i, s)| (*i, s.to_string())).collect()
}

#[test]
fn column_names_in_order() {
    assert_eq!(table().column_values(), vec!["a", "b", "c", "d"]);
}

#[test]
fn one_row_with_stand_ins() {
    assert_eq!(
        table().construct_batch(vec![row(&[(0, "1")])]),
        Some("INSERT INTO db.t (a,b,c,d) VALUES (1,'',NULL,now())".to_string())
    );
}

#[test]
fn own_values_come_before_stand_ins() {
    assert_eq!(
        table().construct_batch(vec![row(&[(0, "1"), (1, "'x'"), (2, "2"), (3, "3")])]),
        Some("INSERT INTO db.t (a,b,c,d) VALUES (1,'x',2,3)".to_string())
    );
}

#[test]
fn a_row_that_cannot_be_completed_is_left_out_whole() {
    let rows = vec![row(&[(0, "1")]), row(&[(1, "'x'")]), row(&[(0, "3"), (7, "9")])];
    assert_eq!(
        table().construct_batch(rows.clone()),
        Some("INSERT INTO db.t (a,b,c,d) VALUES (1,'',NULL,now()),(3,'',NULL,now())".to_string())
    );
    let (kept, discarded) = table().complete_rows(&rows);
    assert_eq!(kept.len(), 2);
    assert_eq!(kept[1], vec!["3", "''", "NULL", "now()"]);
    assert_eq!(discarded, vec![RowDiscard { row: 1, column: 0 }]);
    assert_eq!(table().complete_row(&rows[1]), Err(0));
    assert_eq!(
        table().complete_row(&rows[0]),
        Ok(vec!["1".to_string(), "''".to_string(), "NULL".to_string(), "now()".to_string()])
    );
}

#[test]
fn no_rows_give_no_statement() {
    assert_eq!(table().construct_batch(vec![]), None);
    assert_eq!(table().construct_batch(vec![row(&[(1, "'x'")])]), None);
}

#[test]
fn rendering_rows_as_they_are() {
    let rows = vec![vec!["1".to_string(), "2".to_string()], vec![]];
    assert_eq!(table().render_rows(&rows), "INSERT INTO db.t (a,b,c,d) VALUES (1,2),()");
}

#[test]
fn table_without_columns() {
    let empty = Table::new(
        ClickhouseTableParts { database: "db".to_string(), table: "t".to_string() },
        vec![],
    );
    assert_eq!(
        empty.construct_batch(vec![row(&[])]),
        Some("INSERT INTO db.t () VALUES ()".to_string())
    );
}

#[test]
fn single_row_statement_takes_the_values_in_index_order() {
    let mut fields = BTreeMap::new();
    fields.insert(3usize, "'c'".to_string());
    fields.insert(0usize, "1".to_string());
    fields.insert(10usize, "x".to_string());
    assert_eq!(
        table().construct_query(fields),
        Ok("INSERT INTO db.t (a,b,c,d) VALUES (1,'c',x)".to_string())
    );
    assert_eq!(
        table().construct_query(BTreeMap::new()),
        Ok("INSERT INTO db.t (a,b,c,d) VALUES ()".to_string())
    );
}

#[test]
fn settings_start_from_the_defaults() {
    let config = FdbCliConfig::default(false);
    assert_eq!(config.version, "0.1.0");
    assert_eq!(config.cluster_file, "/etc/foundationdb/fdb.cluster");
    assert_eq!(config.database_url, "http://localhost:8083");
    assert_eq!(config.proto_file, None);
    assert_eq!(config.mapping_file, None);
    assert_eq!(FdbCliConfig::default(true).cluster_file, "/usr/local/etc/foundationdb/fdb.cluster");
    assert_eq!(
        FdbCliConfig::default_cluster_file(true),
        "/usr/local/etc/foundationdb/fdb.cluster"
    );
    assert_eq!(FdbCliConfig::default_cluster_file(false), "/etc/foundationdb/fdb.cluster");
}

#[test]
fn environment_overrides_the_file() {
    let mut config = FdbCliConfig::default(false);
    config.proto_file = Some("file.proto".to_string());
    let config = config.with_overrides(Overrides {
        cluster_file: Some("/tmp/fdb.cluster".to_string()),
        database_url: None,
        proto_file: None,
        mapping_file: Some("map.json".to_string()),
        postgres_ca_file: Some("ca.pem".to_string()),
        postgres_certificate_chain_file: None,
        postgres_private_key_file: None,
    });
    assert_eq!(config.version, "0.1.0");
    assert_eq!(config.cluster_file, "/tmp/fdb.cluster");
    assert_eq!(config.database_url, "http://localhost:8083");
    assert_eq!(config.proto_file, Some("file.proto".to_string()));
    assert_eq!(config.mapping_file, Some("map.json".to_string()));
    assert_eq!(config.postgres_ca_file, Some("ca.pem".to_string()));
    assert_eq!(config.postgres_certificate_chain_file, None);
    assert_eq!(config.postgres_private_key_file, None);
}

#[test]
fn sink_is_secured_where_the_three_files_are_set() {
    let mut config = FdbCliConfig::default(false);
    assert_eq!(config.sink_connection(), Ok(SinkConnection::Plain));
    config.postgres_ca_file = Some("ca.pem".to_string());
    assert_eq!(
        config.sink_connection(),
        Err(Error::MissingConfig("Missing certificate file for the secured sink".to_string()))
    );
    config.postgres_certificate_chain_file = Some("chain.pem".to_string());
    config.postgres_private_key_file = Some("key.pem".to_string());
    assert_eq!(
        config.sink_connection(),
        Ok(SinkConnection::Secure {
            ca_file: "ca.pem".to_string(),
            certificate_chain_file: "chain.pem".to_string(),
            private_key_file: "key.pem".to_string(),
        })
    );
    config.postgres_ca_file = None;
    assert!(matches!(config.sink_connection(), Err(Error::MissingConfig(_))));
}

#[test]
fn set_command_changes_what_it_gives() {
    let mut config = FdbCliConfig::default(false);
    let nothing =
        SetArgs { cluster_file: None, proto_file: None, database_url: None, mapping_file: None };
    assert!(!config.apply(nothing));
    assert_eq!(config.cluster_file, "/etc/foundationdb/fdb.cluster");
    let some = SetArgs {
        cluster_file: None,
        proto_file: Some("p.proto".to_string()),
        database_url: Some("postgres://h".to_string()),
        mapping_file: None,
    };
    assert!(config.apply(some));
    assert_eq!(config.cluster_file, "/etc/foundationdb/fdb.cluster");
    assert_eq!(config.proto_file, Some("p.proto".to_string()));
    assert_eq!(config.database_url, "postgres://h");
    assert_eq!(config.mapping_file, None);
}

#[test]
fn missing_paths_are_errors() {
    let mut config = FdbCliConfig::default(false);
    assert_eq!(
        config.mapping_path(),
        Err(Error::MissingConfig("Mapping config not provided".to_string()))
    );
    assert_eq!(
        config.proto_path(),
        Err(Error::MissingConfig("Missing protofile definition".to_string()))
    );
    config.mapping_file = Some("m.json".to_string());
    config.proto_file = Some("p.proto".to_string());
    assert_eq!(config.mapping_path(), Ok("m.json".to_string()));
    assert_eq!(config.proto_path(), Ok("p.proto".to_string()));
}

#[test]
fn relational_catalog_row_becomes_a_catalog_row() {
    let row = TableColumnRow {
        name: "id".to_string(),
        position: 3,
        raw_type: "INT8".to_string(),
        nullable: true,
        default_expression: "0".to_string(),
    };
    let converted = row.into_catalog_row().unwrap();
    assert_eq!(converted.name, "id");
    assert_eq!(converted.position, 3);
    assert_eq!(converted.raw_type, "INT8");
    assert_eq!(converted.default_expression, "0");
    let below = TableColumnRow {
        name: "id".to_string(),
        position: -1,
        raw_type: "INT8".to_string(),
        nullable: false,
        default_expression: String::new(),
    };
    assert_eq!(
        below.into_catalog_row().unwrap_err(),
        Error::ParseError("Invalid column position".to_string())
    );
}
