use zippa_db::clipboard::Snapshot;
use zippa_db::panels::{
    import_notes, kill_ids, kill_notice, kill_title, plural, tag_text, LoadEnd, Loader, TagColor,
};

#[test]
fn picked_rows_end_their_own_connections() {
    let picked = Snapshot {
        columns: vec!["pid".to_string(), "query".to_string()],
        types: vec![],
        rows: vec![
            vec![Some("12".to_string()), Some("select".to_string())],
            vec![None, Some("idle".to_string())],
            vec![],
            vec![Some("40".to_string())],
        ],
    };
    assert_eq!(kill_ids(&picked), vec!["12".to_string(), "40".to_string()]);
    assert_eq!(kill_title(1), "End this connection?");
    assert_eq!(kill_title(3), "End 3 connections?");
    assert_eq!(kill_notice(1, 0), "Ended 1 connection");
    assert_eq!(kill_notice(4, 0), "Ended 4 connections");
    assert_eq!(kill_notice(4, 1), "Ended 3, 1 failed");
}

#[test]
fn import_words() {
    assert_eq!(plural(1, "statement"), "1 statement");
    assert_eq!(plural(0, "error"), "0 errors");
    assert_eq!(plural(12, "statement"), "12 statements");
    assert_eq!(import_notes(false, false), None);
    assert_eq!(
        import_notes(true, false).unwrap(),
        "The dump carried its own BEGIN/COMMIT; the import managed them."
    );
    assert_eq!(
        import_notes(true, true).unwrap(),
        "The dump carried its own BEGIN/COMMIT; the import managed them. MySQL cannot roll a dump back, so the run stopped at the first error."
    );
}

#[test]
fn a_chip_says_its_tag_or_its_colour() {
    assert_eq!(tag_text(Some("prod"), Some(TagColor::Red)), Some("prod".to_string()));
    assert_eq!(tag_text(Some(""), Some(TagColor::Teal)), Some("Teal".to_string()));
    assert_eq!(tag_text(None, Some(TagColor::Gray)), Some("Gray".to_string()));
    assert_eq!(tag_text(None, None), None);
    assert_eq!(tag_text(Some(""), None), None);
}

#[test]
fn a_panel_says_where_its_read_stands() {
    let mut load = Loader::new();
    assert_eq!(load.status_text(), "");
    load.begin();
    assert_eq!(load.status_text(), "Loading\u{2026}");
    assert!(load.finish(LoadEnd::Loaded, "process list"));
    assert!(!load.loading);
    assert!(load.error.is_none());

    load.begin();
    assert!(!load.finish(LoadEnd::Cancelled, "server variables"));
    assert_eq!(
        load.error.as_deref(),
        Some("loading the server variables was cancelled")
    );
    load.begin();
    assert!(load.error.is_none());
    assert!(!load.finish(LoadEnd::Failed("permission denied".to_string()), "query digest"));
    assert_eq!(load.error.as_deref(), Some("permission denied"));

    load.begin();
    assert!(!load.finish(
        LoadEnd::Unavailable("performance_schema is off".to_string()),
        "query digest"
    ));
    assert_eq!(load.unavailable.as_deref(), Some("performance_schema is off"));
    assert!(load.error.is_none());
}

#[test]
fn ending_connections_reads_the_list_again() {
    let mut load = Loader::new();
    load.connections_ended(3, Some(1));
    assert!(load.loading);
    assert!(load.notice.is_none());
    assert_eq!(load.status_text(), "Loading\u{2026}");
    load.notice = Some(kill_notice(2, 0));
    load.finish(LoadEnd::Loaded, "process list");
    assert_eq!(load.status_text(), "Ended 2 connections");
}
