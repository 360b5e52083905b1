use std::time::{SystemTime, UNIX_EPOCH};

use zippa_db::console::{
    as_result, format_time, lay_out_log, outcome_label, source_label, LoggedQuery, QueryOutcome,
    QuerySource,
};

fn now_ms() -> i64 {
    SystemTime::now().duration_since(UNIX_EPOCH).unwrap().as_millis() as i64
}

fn entry(source: QuerySource, outcome: QueryOutcome) -> LoggedQuery {
    LoggedQuery {
        sql: "select 1".to_string(),
        source,
        outcome,
        elapsed_ms: 5,
        at_ms: now_ms(),
    }
}

#[test]
fn newest_entry_comes_first() {
    let log = vec![
        entry(QuerySource::Internal, QueryOutcome::Rows(1)),
        entry(QuerySource::User, QueryOutcome::Affected(2)),
    ];
    let result = as_result(&log);
    assert_eq!(result.rows[0][1], Some("User".to_string()));
    assert_eq!(result.rows[1][1], Some("Internal".to_string()));
}

#[test]
fn outcomes_are_labelled() {
    assert_eq!(outcome_label(&QueryOutcome::Rows(1)), "1 row");
    assert_eq!(outcome_label(&QueryOutcome::Rows(2)), "2 rows");
    assert_eq!(outcome_label(&QueryOutcome::Affected(1)), "1 row affected");
    assert_eq!(outcome_label(&QueryOutcome::Ran), "ran");
    assert_eq!(
        outcome_label(&QueryOutcome::Error("boom".into())),
        "Error: boom"
    );
}

#[test]
fn every_column_of_an_entry_is_filled_in() {
    let log = vec![entry(QuerySource::User, QueryOutcome::Ran)];
    let times = vec!["12:00:00.000".to_string()];
    let result = lay_out_log(&log, &times);
    assert_eq!(result.columns, vec!["Time", "Source", "Ms", "SQL", "Result"]);
    assert_eq!(result.column_types, vec!["TEXT"; 5]);
    assert_eq!(
        result.rows[0],
        vec![
            Some("12:00:00.000".to_string()),
            Some("User".to_string()),
            Some("5".to_string()),
            Some("select 1".to_string()),
            Some("ran".to_string()),
        ]
    );
    assert_eq!(source_label(QuerySource::Internal), "Internal");
    assert_eq!(outcome_label(&QueryOutcome::Affected(0)), "0 rows affected");
}

#[test]
fn a_time_is_read_to_the_millisecond() {
    let shown = format_time(now_ms());
    assert_eq!(shown.len(), 12);
    assert_eq!(&shown[2..3], ":");
    assert_eq!(&shown[8..9], ".");
}

#[test]
fn a_time_is_written_to_the_millisecond() {
    let shown = format_time(1_234);
    assert_eq!(shown.len(), 12);
    assert!(shown.ends_with(".234"));
    assert_eq!(&shown[2..3], ":");
    assert_eq!(&shown[5..6], ":");
    assert!(format_time(-1).ends_with(".999"));
    assert_eq!(format_time(i64::MAX), "");
}

#[test]
fn times_are_shown_across_chronos_whole_range() {
    assert_eq!(format_time(8_210_266_876_799_999).len(), 12);
    assert!(format_time(8_210_266_876_799_999).ends_with(".999"));
    assert_eq!(format_time(8_210_266_876_800_000), "");
    assert_eq!(format_time(-8_334_601_228_800_000).len(), 12);
    assert_eq!(format_time(-8_334_601_228_800_001), "");
}

#[test]
fn every_row_shows_its_own_entrys_time() {
    let log = vec![
        LoggedQuery {
            sql: "select 1".to_string(),
            source: QuerySource::User,
            outcome: QueryOutcome::Ran,
            elapsed_ms: 1,
            at_ms: 1_001,
        },
        LoggedQuery {
            sql: "select 2".to_string(),
            source: QuerySource::User,
            outcome: QueryOutcome::Ran,
            elapsed_ms: 1,
            at_ms: i64::MAX,
        },
    ];
    let result = as_result(&log);
    assert_eq!(result.rows[0][0], Some(String::new()));
    let first = result.rows[1][0].clone().expect("a time");
    assert!(first.ends_with(".001"));
}
