use fdb_ch_proto_export::number::{parse_number, signed_to_string, unsigned_to_string};
use fdb_ch_proto_export::text::{chars_of, join_with, replace, same_text, starts_with, text_of};

#[test]
fn unsigned_numbers_as_text() {
    assert_eq!(unsigned_to_string(0), "0");
    assert_eq!(unsigned_to_string(7), "7");
    assert_eq!(unsigned_to_string(10), "10");
    assert_eq!(unsigned_to_string(1234567890), "1234567890");
    assert_eq!(unsigned_to_string(u64::MAX), "18446744073709551615");
}

#[test]
fn signed_numbers_as_text() {
    assert_eq!(signed_to_string(0), "0");
    assert_eq!(signed_to_string(-1), "-1");
    assert_eq!(signed_to_string(42), "42");
    assert_eq!(signed_to_string(i64::MAX), "9223372036854775807");
    assert_eq!(signed_to_string(i64::MIN), "-9223372036854775808");
}

#[test]
fn numbers_are_read_as_the_standard_library_reads_them() {
    for text in [
        "0", "8", "16", "32", "64", "007", "+5", "-5", "-0", "2147483647", "2147483648",
        "-2147483648", "-2147483649", "99999999999999999999", "", "+", "-", "1x", "x1", " 1",
        "1 ", "--1", "+-1", "1_000", "٣",
    ] {
        assert_eq!(parse_number(text), text.parse::<i32>().ok(), "reading {:?}", text);
    }
}

#[test]
fn prefix_test() {
    assert!(starts_with("Nullable(Int8)", "Nullable("));
    assert!(starts_with("Nullable(", "Nullable("));
    assert!(starts_with("abc", ""));
    assert!(!starts_with("Nullable", "Nullable("));
    assert!(!starts_with("xNullable(", "Nullable("));
}

#[test]
fn texts_compare_by_their_characters() {
    assert!(same_text("String", "String"));
    assert!(!same_text("String", "string"));
    assert!(!same_text("String", "Strin"));
    assert!(same_text("", ""));
}

#[test]
fn characters_and_back() {
    let chars = chars_of("a.é");
    assert_eq!(chars, vec!['a', '.', 'é']);
    assert_eq!(text_of(&chars, 0, 3), "a.é");
    assert_eq!(text_of(&chars, 2, 3), "é");
    assert_eq!(text_of(&chars, 1, 1), "");
}

#[test]
fn joining() {
    let none: Vec<String> = vec![];
    assert_eq!(join_with(&none, ","), "");
    assert_eq!(join_with(&vec!["a".to_string()], ","), "a");
    assert_eq!(join_with(&vec!["a".to_string(), "".to_string(), "c".to_string()], ","), "a,,c");
    assert_eq!(join_with(&vec!["a".to_string(), "b".to_string()], ", "), "a, b");
}

#[test]
fn replacing_a_character() {
    assert_eq!(replace("it's", '\'', "\\'"), "it\\'s");
    assert_eq!(replace("'a''", '\'', ""), "a");
    assert_eq!(replace("abc", 'x', "y"), "abc");
    assert_eq!(replace("", 'x', "y"), "");
    assert_eq!(replace("it's", '\'', "\\'"), "it's".replace("'", "\\'"));
}
