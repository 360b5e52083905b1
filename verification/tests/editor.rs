use zippa_db::editor::{
    analyze_disabled, analyze_tooltip, explain_request, run_label, run_request, runs_when_opened,
    script_request, statement_to_run, EditorRequest,
};

fn run_text(r: Option<EditorRequest>) -> Option<String> {
    match r {
        Some(EditorRequest::Run(sql)) => Some(sql),
        _ => None,
    }
}

#[test]
fn a_selection_is_run_as_written() {
    let r = run_request(false, "select 1; select 2", Some("select 3".to_string()));
    assert_eq!(run_text(r), Some("select 1; select 2".to_string()));
}

#[test]
fn a_blank_selection_runs_the_statement_at_the_caret() {
    let r = run_request(false, "  \n\t", Some("select 3".to_string()));
    assert_eq!(run_text(r), Some("select 3".to_string()));
    assert_eq!(statement_to_run("", None), None);
}

#[test]
fn nothing_is_sent_while_a_run_is_in_flight() {
    assert!(run_request(true, "select 1", None).is_none());
    assert!(script_request(true, "select 1").is_none());
    assert!(explain_request(true, false, "select 1", None).is_none());
}

#[test]
fn a_script_needs_more_than_white_space() {
    assert!(script_request(false, " \n ").is_none());
    match script_request(false, "select 1;\nselect 2;") {
        Some(EditorRequest::RunScript(sql)) => assert_eq!(sql, "select 1;\nselect 2;"),
        _ => panic!("expected a script run"),
    }
}

#[test]
fn explain_carries_the_statement_and_the_analyze_flag() {
    match explain_request(false, true, "", Some("select * from t".to_string())) {
        Some(EditorRequest::Explain { sql, analyze }) => {
            assert_eq!(sql, "select * from t");
            assert!(analyze);
        }
        _ => panic!("expected an explain"),
    }
    assert!(explain_request(false, false, " ", None).is_none());
}

#[test]
fn the_buttons_follow_the_run_state() {
    assert_eq!(run_label(true), "Running\u{2026}");
    assert_eq!(run_label(false), "Run");
    assert!(analyze_disabled(false, true));
    assert!(analyze_disabled(true, false));
    assert!(!analyze_disabled(false, false));
    assert_eq!(
        analyze_tooltip(true),
        "Analyze runs the query; this statement changes data"
    );
}

#[test]
fn a_tab_opened_to_run_runs_only_what_it_was_given() {
    assert!(runs_when_opened(true, "select * from items"));
    assert!(!runs_when_opened(true, "  "));
    assert!(!runs_when_opened(false, "select 1"));
}
