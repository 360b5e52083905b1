use zippa_db::rebuild::Change;
use zippa_db::schema_editor::{
    drop_label, find_row, index_kind, key_marker, reference_text, row_tint, toggle_drop,
    EditorState, FormRow, RowTint, TaskEnd,
};

fn row(id: usize, existing: bool) -> FormRow<&'static str> {
    FormRow {
        id,
        original: if existing { Some("name TEXT") } else { None },
        dropped: false,
    }
}

fn ids(rows: &[FormRow<&'static str>]) -> Vec<(usize, bool)> {
    rows.iter().map(|r| (r.id, r.dropped)).collect()
}

#[test]
fn an_existing_row_is_marked_and_a_new_one_removed() {
    let mut rows = vec![row(0, true), row(1, false), row(2, true)];
    assert_eq!(find_row(&rows, 2), Some(2));
    assert_eq!(find_row(&rows, 9), None);
    toggle_drop(&mut rows, 0);
    assert_eq!(ids(&rows), vec![(0, true), (1, false), (2, false)]);
    toggle_drop(&mut rows, 1);
    assert_eq!(ids(&rows), vec![(0, true), (2, false)]);
    toggle_drop(&mut rows, 0);
    assert_eq!(ids(&rows), vec![(0, false), (2, false)]);
    toggle_drop(&mut rows, 7);
    assert_eq!(ids(&rows), vec![(0, false), (2, false)]);
}

#[test]
fn a_preview_shows_the_statements_or_why_not() {
    let mut state = EditorState::new();
    assert_eq!(state.preview(false, Ok(Change::Statements(vec!["x".to_string()]))), None);
    assert!(state.pending.is_none());

    let text = state.preview(
        true,
        Ok(Change::Statements(vec![
            "ALTER TABLE t ADD COLUMN a int".to_string(),
            "ALTER TABLE t DROP COLUMN b".to_string(),
        ])),
    );
    assert_eq!(
        text.as_deref(),
        Some("ALTER TABLE t ADD COLUMN a int;\nALTER TABLE t DROP COLUMN b;")
    );
    assert!(state.pending.is_some());
    assert!(state.is_dirty(false));
    assert!(!state.offers_preview(true));

    assert_eq!(state.preview(true, Ok(Change::Statements(vec![]))), None);
    assert_eq!(state.error.as_deref(), Some("nothing has changed"));
    assert!(state.pending.is_none());

    assert_eq!(state.preview(true, Err("a retype needs a rebuild".to_string())), None);
    assert_eq!(state.footer(), ("Error: a retype needs a rebuild".to_string(), true));
}

#[test]
fn applying_runs_the_waiting_change_then_reloads() {
    let mut state = EditorState::new();
    assert!(state.begin_apply().is_none());
    state.preview(true, Ok(Change::Statements(vec!["DROP INDEX i".to_string()])));
    let change = state.begin_apply();
    assert_eq!(change, Some(Change::Statements(vec!["DROP INDEX i".to_string()])));
    assert!(state.applying);
    assert_eq!(state.footer(), ("Applying\u{2026}".to_string(), false));
    assert!(state.preview_disabled(true));

    assert!(state.finish_apply(TaskEnd::Finished));
    assert!(!state.applying);
    assert!(state.loading);
    assert_eq!(state.footer(), ("Loading\u{2026}".to_string(), false));
    state.finish_reload(TaskEnd::Finished);
    assert_eq!(state.footer(), ("Changes applied".to_string(), false));

    state.switch_connection();
    assert!(state.notice.is_none());
    state.finish_reload(TaskEnd::Cancelled);
    assert_eq!(
        state.error.as_deref(),
        Some("reading the table's structure was cancelled")
    );
}

#[test]
fn a_failed_apply_keeps_the_edits_and_says_why() {
    let mut state = EditorState::new();
    state.preview(true, Ok(Change::Rebuild(vec!["CREATE TABLE new_t (a)".to_string()])));
    state.begin_apply();
    assert!(!state.finish_apply(TaskEnd::Failed("the table rebuild failed".to_string())));
    assert_eq!(state.error.as_deref(), Some("the table rebuild failed"));
    assert!(!state.loading);
    state.edited();
    assert!(!state.finish_apply(TaskEnd::Cancelled));
    assert_eq!(
        state.error.as_deref(),
        Some("applying the changes was cancelled")
    );
    assert!(!state.preview_disabled(true));
    assert!(state.preview_disabled(false));
}

#[test]
fn section_rows_say_what_they_are() {
    assert_eq!(row_tint(true, true, true), Some(RowTint::Dropped));
    assert_eq!(row_tint(false, true, true), Some(RowTint::Added));
    assert_eq!(row_tint(false, false, true), Some(RowTint::Changed));
    assert_eq!(row_tint(false, false, false), None);
    assert_eq!(drop_label(true, false), "Drop");
    assert_eq!(drop_label(true, true), "Undrop");
    assert_eq!(drop_label(false, false), "Remove");
    assert_eq!(index_kind(true, true), "PRIMARY KEY");
    assert_eq!(index_kind(false, true), "UNIQUE");
    assert_eq!(index_kind(false, false), "INDEX");
    assert_eq!(key_marker(true), "PK");
    assert_eq!(key_marker(false), "");
}

#[test]
fn a_foreign_key_row_names_its_reference() {
    let cols = vec!["tag_id".to_string(), "tag_kind".to_string()];
    let refs = vec!["id".to_string(), "kind".to_string()];
    assert_eq!(
        reference_text(&cols, Some("app"), "tags", &refs),
        "tag_id, tag_kind \u{2192} app.tags(id, kind)"
    );
    assert_eq!(
        reference_text(&vec!["a".to_string()], None, "t", &vec!["b".to_string()]),
        "a \u{2192} t(b)"
    );
}
