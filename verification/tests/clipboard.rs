use zippa_db::clipboard::{
    MAX_COPY_BYTES, Snapshot, cap_bytes, column_cells, copy_rows, count_listed, count_of, format_notice,
    in_list_notice, rows_notice, tsv_rows, with_skipped,
};

#[test]
fn one_is_counted_in_the_singular() {
    assert_eq!(count_of(1, "row", "rows"), "1 row");
    assert_eq!(count_of(0, "row", "rows"), "0 rows");
    assert_eq!(count_of(12, "value", "values"), "12 values");
}

#[test]
fn skipped_values_are_noted_only_when_there_are_some() {
    assert_eq!(with_skipped("Copied 2 rows".to_string(), 0), "Copied 2 rows");
    assert_eq!(
        with_skipped("Copied 2 rows".to_string(), 1),
        "Copied 2 rows (1 value not read back, copied as NULL)"
    );
    assert_eq!(
        with_skipped("Copied 2 rows".to_string(), 3),
        "Copied 2 rows (3 values not read back, copied as NULL)"
    );
}

#[test]
fn a_payload_that_fits_is_untouched() {
    let (text, capped) = cap_bytes("héllo".to_string());
    assert_eq!(text, "héllo");
    assert!(!capped);
}

#[test]
fn a_payload_too_large_is_cut_on_a_character_boundary() {
    // One ASCII byte, then two-byte characters: the cap falls inside one.
    let text = format!("a{}", "é".repeat(MAX_COPY_BYTES / 2 + 1));
    let (cut, capped) = cap_bytes(text.clone());
    assert!(capped);
    assert!(cut.len() <= MAX_COPY_BYTES);
    assert_eq!(cut.len(), MAX_COPY_BYTES - 1);
    assert!(text.starts_with(&cut));
}

#[test]
fn rows_go_out_tab_separated_with_null_as_nothing() {
    let rows = vec![
        vec![Some("1".to_string()), None, Some("x".to_string())],
        vec![Some("2".to_string()), Some("y".to_string()), None],
    ];
    assert_eq!(tsv_rows(&rows), "1\t\tx\n2\ty\t");
    assert_eq!(tsv_rows(&Vec::new()), "");
}

#[test]
fn a_column_snapshot_yields_its_first_cells() {
    let snapshot = Snapshot {
        columns: vec!["name".to_string()],
        types: vec!["TEXT".to_string()],
        rows: vec![vec![Some("ada".to_string())], vec![], vec![None]],
    };
    assert_eq!(
        column_cells(&snapshot),
        vec![Some("ada".to_string()), None, None]
    );
}

#[test]
fn notices_say_which_part_went() {
    assert_eq!(rows_notice(10, 25, false), "Copied first 10 of 25 rows");
    assert_eq!(rows_notice(3, 3, true), "Copied the first 50 MB");
    assert_eq!(rows_notice(1, 1, false), "Copied 1 row");
    assert_eq!(
        format_notice(2, 2, false, "CSV"),
        "Copied 2 rows as CSV"
    );
    assert_eq!(
        format_notice(2, 9, false, "JSON"),
        "Copied first 2 of 9 rows as JSON"
    );
}

#[test]
fn an_in_list_counts_only_values_that_were_read() {
    let cells = vec![
        Some("1".to_string()),
        None,
        Some("<3 bytes>".to_string()),
        Some("2".to_string()),
    ];
    assert_eq!(count_listed(&cells), 2);
    assert_eq!(in_list_notice(0, 0), "No values to copy");
    assert_eq!(
        in_list_notice(2, 1),
        "Copied 2 values as an IN list (1 value not read back, copied as NULL)"
    );
}

#[test]
fn copying_rows_gives_the_text_and_says_what_went() {
    let rows = vec![vec![Some("1".to_string()), None], vec![Some("2".to_string()), Some("b".to_string())]];
    let (text, message) = copy_rows(&rows, 2);
    assert_eq!(text, "1\t\n2\tb");
    assert_eq!(message, "Copied 2 rows");
    let (_, message) = copy_rows(&rows, 10);
    assert_eq!(message, "Copied first 2 of 10 rows");
}
