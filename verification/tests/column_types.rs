use fdb_ch_proto_export::clickhouse::ClickhouseTableColumnRow;
use fdb_ch_proto_export::clickhouse_table::TableColumn;
use fdb_ch_proto_export::column_type::{column_type_from_captures, parse_column_type, ColumnType};
use fdb_ch_proto_export::error::Error;

fn groups(texts: &[Option<&str>]) -> Vec<Option<String>> {
    texts.iter().map(|t| t.map(|s| s.to_string())).collect()
}

#[test]
fn plain_integer_is_signed() {
    assert_eq!(
        parse_column_type("Int32"),
        Ok(ColumnType { nullable: false, int_size: 32, is_enum: false })
    );
}

#[test]
fn unsigned_integer_is_negative() {
    assert_eq!(
        parse_column_type("UInt64"),
        Ok(ColumnType { nullable: false, int_size: -64, is_enum: false })
    );
    assert_eq!(
        parse_column_type("UInt8"),
        Ok(ColumnType { nullable: false, int_size: -8, is_enum: false })
    );
}

#[test]
fn every_width_is_read() {
    for (name, width) in [("Int8", 8), ("Int16", 16), ("Int32", 32), ("Int64", 64)] {
        assert_eq!(parse_column_type(name).unwrap().int_size, width);
    }
}

#[test]
fn nullable_integer() {
    assert_eq!(
        parse_column_type("Nullable(Int32)"),
        Ok(ColumnType { nullable: true, int_size: 32, is_enum: false })
    );
}

#[test]
fn nullable_only_as_a_prefix() {
    assert!(parse_column_type("Nullable(String)").unwrap().nullable);
    assert!(!parse_column_type("Array(Nullable(String))").unwrap().nullable);
    assert!(!parse_column_type("nullable(String)").unwrap().nullable);
    assert!(!parse_column_type("").unwrap().nullable);
}

#[test]
fn enum_takes_the_width_negated() {
    assert_eq!(
        parse_column_type("Enum8('A' = 0, 'B' = 1)"),
        Ok(ColumnType { nullable: false, int_size: -8, is_enum: true })
    );
    assert_eq!(
        parse_column_type("Enum16('A' = 0)"),
        Ok(ColumnType { nullable: false, int_size: -16, is_enum: true })
    );
}

#[test]
fn other_types_are_no_integers() {
    for name in ["String", "Array(String)", "DateTime", "Bool", "Float64"] {
        assert_eq!(
            parse_column_type(name),
            Ok(ColumnType { nullable: false, int_size: 0, is_enum: false })
        );
    }
}

#[test]
fn two_integer_matches_are_refused() {
    assert_eq!(
        parse_column_type("Tuple(Int8, UInt16)"),
        Err(Error::ParseError("Ambiguous integer type".to_string()))
    );
}

#[test]
fn two_enum_matches_are_refused() {
    assert_eq!(
        parse_column_type("Tuple(Enum8('A' = 0), Enum16('B' = 1))"),
        Err(Error::ParseError("Ambiguous enum type".to_string()))
    );
}

#[test]
fn captures_decide_the_width() {
    let ints = Some(vec![groups(&[Some("UInt16"), Some("U"), Some("16")])]);
    let none = Some(vec![]);
    assert_eq!(
        column_type_from_captures("UInt16", &ints, &none),
        Ok(ColumnType { nullable: false, int_size: -16, is_enum: false })
    );
    let signed = Some(vec![groups(&[Some("Int16"), None, Some("16")])]);
    assert_eq!(
        column_type_from_captures("Nullable(Int16)", &signed, &none),
        Ok(ColumnType { nullable: true, int_size: 16, is_enum: false })
    );
}

#[test]
fn enum_captures_take_precedence() {
    let ints = Some(vec![groups(&[Some("Int32"), None, Some("32")])]);
    let enums = Some(vec![groups(&[Some("Enum8("), Some("8")])]);
    assert_eq!(
        column_type_from_captures("x", &ints, &enums),
        Ok(ColumnType { nullable: false, int_size: -8, is_enum: true })
    );
}

#[test]
fn a_width_that_is_no_number_is_refused() {
    let ints = Some(vec![groups(&[Some("Intx"), None, Some("x")])]);
    assert_eq!(
        column_type_from_captures("Intx", &ints, &Some(vec![])),
        Err(Error::ParseError("Invalid integer prefix".to_string()))
    );
}

#[test]
fn a_missing_width_group_is_refused() {
    let ints = Some(vec![groups(&[Some("Int"), None, None])]);
    assert_eq!(
        column_type_from_captures("Int", &ints, &Some(vec![])),
        Err(Error::ParseError("Unable to parse integer type".to_string()))
    );
    let short = Some(vec![groups(&[Some("Int")])]);
    assert_eq!(
        column_type_from_captures("Int", &short, &Some(vec![])),
        Err(Error::ParseError("Unable to parse integer type".to_string()))
    );
}

#[test]
fn a_width_that_cannot_be_negated_is_refused() {
    let ints = Some(vec![groups(&[Some("x"), Some("U"), Some("-2147483648")])]);
    assert_eq!(
        column_type_from_captures("x", &ints, &Some(vec![])),
        Err(Error::ParseError("Invalid integer prefix".to_string()))
    );
}

#[test]
fn a_pattern_that_did_not_compile_is_refused() {
    assert_eq!(
        column_type_from_captures("Int8", &None, &Some(vec![])),
        Err(Error::ParseError("Invalid integer pattern".to_string()))
    );
    assert_eq!(
        column_type_from_captures("Int8", &Some(vec![]), &None),
        Err(Error::ParseError("Invalid enum pattern".to_string()))
    );
}

#[test]
fn more_than_one_capture_is_ambiguous() {
    let one = groups(&[Some("Int8"), None, Some("8")]);
    let ints = Some(vec![one.clone(), one]);
    assert_eq!(
        column_type_from_captures("x", &ints, &Some(vec![])),
        Err(Error::ParseError("Ambiguous integer type".to_string()))
    );
}

#[test]
fn column_from_catalog_row() {
    let row = ClickhouseTableColumnRow {
        name: "id".to_string(),
        position: 1,
        raw_type: "Nullable(UInt32)".to_string(),
        default_expression: "7".to_string(),
    };
    let column = TableColumn::try_from(row).unwrap();
    assert_eq!(column.name, "id");
    assert_eq!(column.position, 1);
    assert_eq!(column.raw_type, "Nullable(UInt32)");
    assert_eq!(column.default_expression, "7");
    assert!(column.nullable);
    assert_eq!(column._int_size, -32);
    assert!(!column.is_enum);
}

#[test]
fn column_with_ambiguous_type_is_refused() {
    let row = ClickhouseTableColumnRow {
        name: "pair".to_string(),
        position: 1,
        raw_type: "Tuple(Int8, Int8)".to_string(),
        default_expression: String::new(),
    };
    assert!(matches!(TableColumn::try_from(row), Err(Error::ParseError(_))));
}
