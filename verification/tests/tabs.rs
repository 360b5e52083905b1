use zippa_db::db::{DatabaseObject, ObjectKind};
use zippa_db::tabs::{metadata_error, wants_switch, RunEnd, SaveStep, TabStatus, Tabs};

fn table(name: &str) -> DatabaseObject {
    DatabaseObject {
        schema: None,
        name: name.to_string(),
        kind: ObjectKind::Table,
    }
}

fn titles(tabs: &Tabs) -> Vec<String> {
    tabs.tabs.iter().map(|tab| tab.title.clone()).collect()
}

#[test]
fn a_session_opens_on_one_query_tab() {
    let tabs = Tabs::new();
    assert_eq!(titles(&tabs), vec!["Query 1"]);
    assert_eq!(tabs.active, 0);
}

#[test]
fn untitled_tabs_never_reuse_a_number() {
    let mut tabs = Tabs::new();
    tabs.open_query(None);
    tabs.close(1);
    tabs.open_query(None);
    tabs.open_query(Some("report".to_string()));
    assert_eq!(titles(&tabs), vec!["Query 1", "Query 3", "report"]);
    assert_eq!(tabs.active, 2);
}

#[test]
fn an_open_table_is_brought_forward_not_opened_twice() {
    let mut tabs = Tabs::new();
    tabs.open_object(table("items"), "items".to_string());
    tabs.open_query(None);
    assert_eq!(tabs.active, 2);
    tabs.open_object(table("items"), "items".to_string());
    assert_eq!(tabs.tabs.len(), 3);
    assert_eq!(tabs.active, 1);
    assert_eq!(tabs.position_of(&table("items")), Some(1));
    assert_eq!(tabs.position_of(&table("tags")), None);
}

#[test]
fn closing_the_last_tab_leaves_a_fresh_one() {
    let mut tabs = Tabs::new();
    tabs.close(0);
    assert_eq!(titles(&tabs), vec!["Query 2"]);
    assert_eq!(tabs.active, 0);
    tabs.close(5);
    assert_eq!(titles(&tabs), vec!["Query 2"]);
}

#[test]
fn closing_the_front_tab_at_the_end_moves_the_front_back() {
    let mut tabs = Tabs::new();
    tabs.open_query(None);
    tabs.open_query(None);
    assert_eq!(tabs.active, 2);
    tabs.close(2);
    assert_eq!(tabs.active, 1);
    tabs.activate(0);
    tabs.close(1);
    assert_eq!(tabs.active, 0);
    tabs.activate(9);
    assert_eq!(tabs.active, 0);
}

#[test]
fn the_nearest_query_tab_is_found_going_round() {
    let mut tabs = Tabs::new();
    tabs.open_object(table("a"), "a".to_string());
    tabs.open_object(table("b"), "b".to_string());
    assert_eq!(tabs.nearest_query_tab(), Some(0));
    tabs.close(0);
    assert_eq!(tabs.nearest_query_tab(), None);
    tabs.open_query(None);
    tabs.activate(0);
    assert_eq!(tabs.nearest_query_tab(), Some(2));
}

fn status_text(tabs: &Tabs, index: usize) -> String {
    match &tabs.tabs[index].status {
        TabStatus::Idle => "idle".to_string(),
        TabStatus::Running => "running".to_string(),
        TabStatus::Done(m) => format!("done: {m}"),
        TabStatus::Error(m) => format!("error: {m}"),
    }
}

#[test]
fn a_run_shows_on_its_own_tab_only() {
    let mut tabs = Tabs::new();
    tabs.open_query(None);
    assert!(tabs.begin_run(0));
    assert_eq!(status_text(&tabs, 0), "running");
    assert_eq!(status_text(&tabs, 1), "idle");
    tabs.finish_run(0, RunEnd::Finished("3 rows".to_string()));
    assert_eq!(status_text(&tabs, 0), "done: 3 rows");
    tabs.finish_run(1, RunEnd::Cancelled);
    assert_eq!(status_text(&tabs, 1), "error: the query was cancelled");
    tabs.finish_run(1, RunEnd::Failed("syntax error".to_string()));
    assert_eq!(status_text(&tabs, 1), "error: syntax error");
}

#[test]
fn a_table_tab_runs_nothing_and_saves_its_edits() {
    let mut tabs = Tabs::new();
    tabs.open_object(table("items"), "items".to_string());
    assert!(!tabs.begin_run(1));
    assert_eq!(status_text(&tabs, 1), "idle");
    assert!(matches!(tabs.save_step(1, false), Some(SaveStep::Commit)));
    assert!(tabs.save_step(7, false).is_none());
}

#[test]
fn saving_asks_for_a_path_until_the_tab_has_a_file() {
    let mut tabs = Tabs::new();
    match tabs.save_step(0, false) {
        Some(SaveStep::Prompt { file, title }) => {
            assert_eq!(file, None);
            assert_eq!(title, "Query 1");
        }
        _ => panic!("expected a prompt"),
    }
    tabs.file_written(0, "/tmp/report.sql".to_string(), "report.sql".to_string(), Ok(()));
    assert_eq!(titles(&tabs), vec!["report.sql"]);
    assert_eq!(status_text(&tabs, 0), "done: Saved /tmp/report.sql");
    match tabs.save_step(0, false) {
        Some(SaveStep::Write(path)) => assert_eq!(path, "/tmp/report.sql"),
        _ => panic!("expected a write"),
    }
    match tabs.save_step(0, true) {
        Some(SaveStep::Prompt { file, .. }) => assert_eq!(file.as_deref(), Some("/tmp/report.sql")),
        _ => panic!("Save As should ask"),
    }
    tabs.file_written(0, "/tmp/x.sql".to_string(), "x.sql".to_string(), Err("disk full".to_string()));
    assert_eq!(titles(&tabs), vec!["report.sql"]);
    assert_eq!(status_text(&tabs, 0), "error: disk full");
}

#[test]
fn an_opened_file_gets_its_own_tab() {
    let mut tabs = Tabs::new();
    tabs.open_file_tab("/work/q.sql".to_string(), "q.sql".to_string());
    assert_eq!(titles(&tabs), vec!["Query 1", "q.sql"]);
    assert_eq!(tabs.active, 1);
    assert_eq!(status_text(&tabs, 1), "done: Opened /work/q.sql");
    assert_eq!(tabs.tabs[1].file.as_deref(), Some("/work/q.sql"));
}

#[test]
fn an_error_goes_to_the_nearest_query_tab() {
    let mut tabs = Tabs::new();
    tabs.open_object(table("a"), "a".to_string());
    tabs.report("could not read the file".to_string());
    assert_eq!(status_text(&tabs, 0), "error: could not read the file");
    assert_eq!(status_text(&tabs, 1), "idle");
}

#[test]
fn a_database_switch_resets_every_query_tab() {
    let mut tabs = Tabs::new();
    tabs.open_object(table("items"), "items".to_string());
    tabs.open_query(None);
    tabs.finish_run(0, RunEnd::Finished("1 row".to_string()));
    tabs.begin_run(2);
    tabs.database_switched();
    assert_eq!(status_text(&tabs, 0), "idle");
    assert_eq!(status_text(&tabs, 1), "idle");
    assert_eq!(status_text(&tabs, 2), "idle");

    tabs.switch_failed(Some("unknown database".to_string()));
    assert_eq!(status_text(&tabs, 2), "error: unknown database");
    tabs.switch_failed(None);
    assert_eq!(status_text(&tabs, 2), "error: switching database was cancelled");
}

#[test]
fn only_another_database_is_switched_to() {
    assert!(wants_switch(false, false, "shop", "app"));
    assert!(!wants_switch(false, false, "app", "app"));
    assert!(!wants_switch(false, true, "shop", "app"));
    assert!(!wants_switch(true, false, "shop", "main"));
}

#[test]
fn the_sidebar_reports_what_could_not_be_read() {
    assert_eq!(
        metadata_error(None).as_deref(),
        Some("reading the schema was cancelled")
    );
    assert_eq!(metadata_error(Some((None, None))), None);
    assert_eq!(
        metadata_error(Some((Some("no databases".to_string()), None))).as_deref(),
        Some("no databases")
    );
    assert_eq!(
        metadata_error(Some((
            Some("no databases".to_string()),
            Some("no tables".to_string())
        )))
        .as_deref(),
        Some("no tables")
    );
}
