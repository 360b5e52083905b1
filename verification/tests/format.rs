use zippa_db::format::{format_value, needs_a_window};
use zippa_db::query;

#[test]
fn json_is_laid_out_for_reading() {
    // Keys keep the order the server sent them in.
    let value = Some(r#"{"b":1,"a":[1,2]}"#.to_string());
    assert_eq!(
        format_value(&value, "JSONB"),
        "{\n  \"b\": 1,\n  \"a\": [\n    1,\n    2\n  ]\n}"
    );

    // A column typed as JSON holding a bare string is still JSON.
    assert_eq!(format_value(&Some("\"hi\"".to_string()), "JSON"), "\"hi\"");
}

#[test]
fn everything_else_is_left_as_it_is() {
    let text = "a long line of plain text".to_string();
    assert_eq!(format_value(&Some(text.clone()), "TEXT"), text);
    assert_eq!(format_value(&None, "TEXT"), "NULL");

    // Something that starts like JSON but is not stays as typed.
    let broken = "{not json".to_string();
    assert_eq!(format_value(&Some(broken.clone()), "TEXT"), broken);
}

#[test]
fn a_value_that_was_never_read_says_so() {
    let described = format_value(&query::blob(b"abc"), "BLOB");
    assert!(described.starts_with("<3 bytes>"), "{described}");
    assert!(described.contains("not read back"), "{described}");
}

#[test]
fn an_array_type_is_never_reformatted() {
    let value = Some("[1,2]".to_string());
    assert_eq!(format_value(&value, "int4[]"), "[1,2]");
}

#[test]
fn leading_space_before_json_still_counts() {
    let value = Some("  [1]".to_string());
    assert_eq!(format_value(&value, "TEXT"), "[\n  1\n]");
}

#[test]
fn short_plain_text_fits_a_cell() {
    assert!(!needs_a_window(&Some("hello".to_string()), "TEXT"));
    assert!(!needs_a_window(&None, "TEXT"));
}

#[test]
fn long_multiline_binary_and_json_values_want_a_window() {
    assert!(needs_a_window(&Some("x".repeat(201)), "TEXT"));
    assert!(!needs_a_window(&Some("x".repeat(200)), "TEXT"));
    assert!(needs_a_window(&Some("a\nb".to_string()), "TEXT"));
    assert!(needs_a_window(&Some("abc".to_string()), "bytea"));
    assert!(needs_a_window(&query::blob(b"abc"), "TEXT"));
    assert!(needs_a_window(&Some("{\"a\":1}".to_string()), "TEXT"));
    assert!(!needs_a_window(&Some("{not json".to_string()), "TEXT"));
}
