use zippa_db::grid::{
    delete_label, menu_label, saved_value, staged_value, view_note, ColumnSort, CopyTarget,
    GridStep, MenuItem, ResultDelegate, RowStatus, Scope, SortStep, Sorting, TableEvent,
};
use zippa_db::query::QueryResult;

fn cell(value: &str) -> Option<String> {
    Some(value.to_string())
}

fn result() -> QueryResult {
    QueryResult {
        columns: vec!["id".to_string(), "name".to_string(), "photo".to_string()],
        column_types: vec!["INTEGER".to_string(), "TEXT".to_string(), "BLOB".to_string()],
        rows: vec![
            vec![cell("1"), cell("ada"), cell("<3 bytes>")],
            vec![cell("2"), None, None],
            vec![cell("3"), cell("<XML>"), None],
        ],
    }
}

fn cell_text(grid: &ResultDelegate, row: usize, col: usize) -> Option<String> {
    grid.cell(row, col).cloned()
}

#[test]
fn a_staged_value_is_what_the_cell_shows() {
    let mut grid = ResultDelegate::new(result(), true);
    grid.stage(0, 1, cell("grace"));
    assert_eq!(cell_text(&grid, 0, 1), cell("grace"));
    assert_eq!(grid.baseline(0, 1).cloned(), cell("ada"));
    assert!(grid.is_staged(0, 1));
    assert!(!grid.is_staged(0, 0));
}

#[test]
fn typing_the_loaded_value_back_stages_nothing() {
    let mut grid = ResultDelegate::new(result(), true);
    grid.stage(0, 1, cell("grace"));
    grid.stage(0, 1, cell("ada"));
    assert!(!grid.is_staged(0, 1));
    assert!(grid.staged().is_empty());
    grid.stage(1, 1, None);
    assert!(!grid.is_staged(1, 1));
}

#[test]
fn reset_takes_a_cell_back() {
    let mut grid = ResultDelegate::new(result(), true);
    grid.stage(1, 1, cell("bob"));
    grid.reset_cell(1, 1);
    assert_eq!(cell_text(&grid, 1, 1), None);
    assert!(!grid.is_staged(1, 1));
}

#[test]
fn edits_follow_the_source_row_through_a_sort() {
    let mut grid = ResultDelegate::new(result(), true);
    grid.order = vec![2, 0, 1];
    grid.stage(1, 1, cell("grace"));
    let staged = grid.staged();
    assert_eq!(staged.len(), 1);
    assert_eq!(staged[0].row, 0);
    assert_eq!(staged[0].cells, vec![(1, cell("grace"))]);
}

#[test]
fn staged_rows_come_out_in_row_then_column_order() {
    let mut grid = ResultDelegate::new(result(), true);
    grid.stage(2, 1, cell("c"));
    grid.stage(0, 1, cell("b"));
    grid.stage(0, 0, cell("9"));
    let staged = grid.staged();
    assert_eq!(staged.len(), 2);
    assert_eq!(staged[0].row, 0);
    assert_eq!(staged[0].cells, vec![(0, cell("9")), (1, cell("b"))]);
    assert_eq!(staged[1].row, 2);
    assert_eq!(staged[1].cells, vec![(1, cell("c"))]);
    assert!(grid.row_has_edits(0));
    assert!(!grid.row_has_edits(1));
}

#[test]
fn drafts_sit_after_the_loaded_rows() {
    let mut grid = ResultDelegate::new(result(), true);
    grid.add_draft();
    assert_eq!(grid.rows(), 4);
    assert_eq!(grid.draft(3), Some(0));
    assert_eq!(grid.source(3), None);
    assert!(grid.is_untouched_draft(3, 1));
    grid.stage(3, 1, cell("new"));
    grid.stage(3, 0, None);
    assert!(!grid.is_untouched_draft(3, 1));
    assert_eq!(grid.drafts(), vec![vec![(0, None), (1, cell("new"))]]);
    assert_eq!(grid.row_status(3), Some(RowStatus::Draft));
    assert_eq!(grid.row_status(4), None);
}

#[test]
fn a_read_only_grid_takes_no_draft() {
    let mut grid = ResultDelegate::new(result(), false);
    grid.add_draft();
    assert_eq!(grid.rows(), 3);
}

#[test]
fn what_can_be_typed_into() {
    let mut grid = ResultDelegate::new(result(), true);
    assert!(grid.is_editable(0, 1));
    // A binary column is shown but not held.
    assert!(!grid.is_editable(1, 2));
    // A stand-in the driver wrote cannot be written back.
    assert!(!grid.is_editable(2, 1));
    grid.pick(0, false);
    grid.set_deleted(true);
    assert!(!grid.is_editable(0, 1));
    grid.set_editable(false);
    assert!(!grid.is_editable(1, 1));
}

#[test]
fn deleting_marks_loaded_rows_and_drops_drafts() {
    let mut grid = ResultDelegate::new(result(), true);
    grid.add_draft();
    grid.add_draft();
    grid.stage(4, 0, cell("kept"));
    grid.pick(1, false);
    grid.pick(3, false);
    grid.set_deleted(true);
    assert_eq!(grid.deletions(), vec![1]);
    assert_eq!(grid.rows(), 4);
    // The second draft moved up into the first one's place.
    assert_eq!(cell_text(&grid, 3, 0), cell("kept"));
    assert_eq!(grid.row_status(1), Some(RowStatus::Deleted));
    assert_eq!(grid.picked_rows(), vec![1, 3]);
    assert_eq!(grid.pending_counts(), (0, 1, 1));

    grid.pick(3, false);
    grid.set_deleted(false);
    assert!(grid.deletions().is_empty());
    assert_eq!(grid.row_status(1), Some(RowStatus::Loaded));
}

#[test]
fn a_shifted_pick_takes_the_rows_between() {
    let mut grid = ResultDelegate::new(result(), true);
    grid.pick(2, false);
    grid.pick(0, true);
    assert_eq!(grid.picked_rows(), vec![0, 1, 2]);
    grid.pick(1, false);
    assert_eq!(grid.picked_rows(), vec![0, 2]);
    grid.pick(1, false);
    assert_eq!(grid.picked_rows(), vec![0, 1, 2]);
}

#[test]
fn a_right_click_outside_the_selection_replaces_it() {
    let mut grid = ResultDelegate::new(result(), true);
    grid.pick(0, false);
    grid.pick(1, false);
    assert_eq!(grid.mark_for_menu(1), 2);
    assert_eq!(grid.mark_for_menu(2), 1);
    assert_eq!(grid.picked_rows(), vec![2]);
    grid.pick_all(true, 3);
    assert_eq!(grid.picked_rows(), vec![0, 1, 2]);
    grid.clear_row_selection();
    assert!(grid.picked_rows().is_empty());
}

#[test]
fn applying_makes_the_edits_the_loaded_values() {
    let mut grid = ResultDelegate::new(result(), true);
    grid.stage(0, 1, cell("grace"));
    grid.stage(1, 1, cell("bob"));
    grid.apply_staged(&[0]);
    assert_eq!(grid.baseline(0, 1).cloned(), cell("grace"));
    assert!(!grid.is_staged(0, 1));
    assert!(grid.is_staged(1, 1));
    assert_eq!(grid.baseline_row(0), Some(vec![cell("1"), cell("grace"), cell("<3 bytes>")]));
    assert_eq!(grid.baseline_row(7), None);
}

#[test]
fn counts_and_unsaved_work() {
    let mut grid = ResultDelegate::new(result(), true);
    assert!(!grid.has_unsaved_edits("", true));
    assert_eq!(grid.pending(), 0);
    grid.stage(0, 1, cell("x"));
    grid.stage(2, 0, cell("y"));
    grid.pick(2, false);
    grid.set_deleted(true);
    grid.add_draft();
    assert_eq!(grid.pending_counts(), (1, 1, 1));
    assert_eq!(grid.pending(), 3);
    grid.discard();
    assert_eq!(grid.pending_counts(), (0, 0, 0));
    grid.editing = Some((0, 1));
    assert!(!grid.has_unsaved_edits("ada", true));
    assert!(grid.has_unsaved_edits("grace", true));
    grid.editing = Some((1, 1));
    assert!(!grid.has_unsaved_edits("NULL", true));
    assert!(grid.has_unsaved_edits("NULL", false));
}

#[test]
fn row_cells_are_the_cells_as_they_stand() {
    let mut grid = ResultDelegate::new(result(), true);
    grid.stage(1, 1, cell("z"));
    assert_eq!(grid.row_cells(1), Some(vec![cell("2"), cell("z"), None]));
    assert_eq!(grid.row_cells(3), None);
}

#[test]
fn a_snapshot_takes_what_its_scope_names() {
    let mut grid = ResultDelegate::new(result(), true);
    grid.stage(2, 0, cell("30"));
    let all = grid.snapshot(Scope::All);
    assert_eq!(all.columns.len(), 3);
    assert_eq!(all.rows.len(), 3);
    assert_eq!(all.rows[2][0], cell("30"));

    assert!(grid.snapshot(Scope::Picked).rows.is_empty());
    grid.pick(2, false);
    grid.pick(0, false);
    let picked = grid.snapshot(Scope::Picked);
    assert_eq!(picked.rows, vec![
        vec![cell("1"), cell("ada"), cell("<3 bytes>")],
        vec![cell("30"), cell("<XML>"), None],
    ]);

    let column = grid.snapshot(Scope::Column(1));
    assert_eq!(column.columns, vec!["name".to_string()]);
    assert_eq!(column.types, vec!["TEXT".to_string()]);
    assert_eq!(column.rows, vec![vec![cell("ada")], vec![cell("<XML>")]]);

    let (capped, total) = grid.snapshot_capped(Scope::All, 2);
    assert_eq!(total, 3);
    assert_eq!(capped.rows.len(), 2);
}

#[test]
fn typed_null_and_menu_words() {
    assert_eq!(staged_value("NuLl".to_string(), true), None);
    assert_eq!(staged_value("NuLl".to_string(), false), cell("NuLl"));
    assert_eq!(staged_value("nullable".to_string(), true), cell("nullable"));
    assert_eq!(delete_label(false, 1), "Delete row");
    assert_eq!(delete_label(false, 4), "Delete 4 rows");
    assert_eq!(delete_label(true, 1), "Restore row");
    assert_eq!(delete_label(true, 2), "Restore 2 rows");
    assert_eq!(
        view_note(&cell("<3 bytes>"), true),
        Some("This value was not read back from the server.")
    );
    assert_eq!(view_note(&cell("x"), false), Some("This value cannot be edited here."));
    assert_eq!(view_note(&cell("x"), true), None);
    assert_eq!(saved_value("NULL".to_string(), "NULL", true), None);
    assert_eq!(saved_value("null".to_string(), "NULL", true), Some(None));
    assert_eq!(saved_value("y".to_string(), "x", true), Some(cell("y")));
    assert_eq!(ResultDelegate::data_column(0), None);
    assert_eq!(ResultDelegate::data_column(3), Some(2));
}

#[test]
fn a_new_result_throws_unwritten_changes_away() {
    let mut grid = ResultDelegate::new(result(), true);
    grid.stage(0, 1, cell("x"));
    grid.add_draft();
    grid.pick(0, false);
    grid.set_result(result());
    assert_eq!(grid.pending_counts(), (0, 0, 0));
    assert!(grid.picked_rows().is_empty());
    assert_eq!(grid.rows(), 3);
}

#[test]
fn the_editor_opens_on_the_value_and_folds_back_in() {
    let mut grid = ResultDelegate::new(result(), true);
    assert_eq!(grid.begin_edit(0, 1), Some("ada".to_string()));
    assert_eq!(grid.editing, Some((0, 1)));
    assert!(grid.commit_editor("grace".to_string(), true));
    assert_eq!(grid.editing, None);
    assert_eq!(cell_text(&grid, 0, 1), cell("grace"));
    assert!(!grid.commit_editor("ignored".to_string(), true));

    // A NULL opens empty.
    assert_eq!(grid.begin_edit(1, 1), Some(String::new()));
    assert!(grid.close_editor());
    assert!(!grid.close_editor());
    // A stand-in cannot be edited.
    assert_eq!(grid.begin_edit(2, 1), None);
}

#[test]
fn finishing_without_typing_changes_nothing() {
    let mut grid = ResultDelegate::new(result(), true);
    let text = grid.begin_edit(0, 1).unwrap();
    grid.commit_editor(text, true);
    assert!(!grid.is_staged(0, 1));
    assert!(grid.staged().is_empty());
}

#[test]
fn null_and_outside_values_are_staged_only_where_typing_is_allowed() {
    let mut grid = ResultDelegate::new(result(), true);
    grid.begin_edit(0, 1);
    assert!(grid.set_null(0, 1));
    assert_eq!(grid.editing, None);
    assert_eq!(cell_text(&grid, 0, 1), None);
    assert!(!grid.set_null(0, 2));
    assert!(grid.stage_cell(1, 0, cell("7")));
    assert!(!grid.stage_cell(2, 1, cell("x")));
    assert_eq!(cell_text(&grid, 2, 1), cell("<XML>"));
}

#[test]
fn table_events_become_grid_steps() {
    let grid = ResultDelegate::new(result(), true);
    assert_eq!(grid.table_event(TableEvent::SelectCell(1, 0)), GridStep::SelectFirstColumn(1));
    assert_eq!(grid.table_event(TableEvent::SelectRow(2)), GridStep::SelectFirstColumn(2));
    assert_eq!(grid.table_event(TableEvent::SelectCell(1, 2)), GridStep::Focus(Some(1), false));
    assert_eq!(grid.table_event(TableEvent::ClearSelection), GridStep::Focus(None, true));
    assert_eq!(grid.table_event(TableEvent::DoubleClickedCell(0, 0)), GridStep::Nothing);
    assert_eq!(grid.table_event(TableEvent::DoubleClickedCell(0, 2)), GridStep::BeginEdit(0, 1));
    // A binary column, or a stand-in, opens the value window.
    assert_eq!(grid.table_event(TableEvent::DoubleClickedCell(0, 3)), GridStep::ViewCell(0, 2));
    assert_eq!(grid.table_event(TableEvent::DoubleClickedCell(2, 2)), GridStep::ViewCell(2, 1));
    assert_eq!(grid.table_event(TableEvent::Other), GridStep::Nothing);

    let empty = ResultDelegate::new(QueryResult::default(), false);
    assert_eq!(empty.table_event(TableEvent::SelectRow(0)), GridStep::Nothing);
}

#[test]
fn leaving_a_row_with_edits_says_so() {
    let mut grid = ResultDelegate::new(result(), true);
    assert_eq!(grid.focus_row(Some(0)), (true, None));
    grid.stage(0, 1, cell("x"));
    assert_eq!(grid.focus_row(Some(0)), (false, None));
    assert_eq!(grid.focus_row(Some(2)), (true, Some(0)));
    assert_eq!(grid.focus_row(None), (true, None));
}

#[test]
fn only_a_described_binary_cell_offers_a_preview() {
    let mut grid = ResultDelegate::new(result(), true);
    grid.order = vec![1, 0, 2];
    assert_eq!(grid.preview_row(1, 2), Some(0));
    assert_eq!(grid.preview_row(0, 2), None);
    assert_eq!(grid.preview_row(2, 1), None);
    assert_eq!(grid.preview_row(9, 2), None);
}

#[test]
fn the_row_menu_offers_what_the_row_allows() {
    // A read-only grid still lets a value be looked at.
    let mut grid = ResultDelegate::new(result(), false);
    assert_eq!(
        grid.row_menu(1, Some((1, 0)), &vec![0]),
        vec![
            MenuItem::ViewValue { row: 1, col: 0 },
            MenuItem::GoToReferenced { row: 1, col: 0 }
        ]
    );
    // Nothing to jump to from a NULL, and no menu at all away from the cell.
    assert_eq!(
        grid.row_menu(1, Some((1, 1)), &vec![1]),
        vec![MenuItem::ViewValue { row: 1, col: 1 }]
    );
    assert!(grid.row_menu(0, Some((1, 1)), &vec![]).is_empty());

    let mut grid = ResultDelegate::new(result(), true);
    grid.pick(0, false);
    grid.pick(1, false);
    assert_eq!(grid.row_menu(1, None, &vec![]), vec![MenuItem::Delete(2)]);
    assert_eq!(grid.row_menu(2, None, &vec![]), vec![MenuItem::Delete(1)]);
    assert_eq!(grid.picked_rows(), vec![2]);
    grid.set_deleted(true);
    assert_eq!(grid.row_menu(2, None, &vec![]), vec![MenuItem::Restore(1)]);
    grid.add_draft();
    assert_eq!(grid.row_menu(3, None, &vec![]), vec![MenuItem::DiscardNewRow(0)]);
}

#[test]
fn menu_items_are_worded_for_their_rows() {
    assert_eq!(menu_label(MenuItem::ViewValue { row: 0, col: 0 }), "View value");
    assert_eq!(
        menu_label(MenuItem::GoToReferenced { row: 0, col: 0 }),
        "Go to referenced row"
    );
    assert_eq!(menu_label(MenuItem::DiscardNewRow(0)), "Discard new row");
    assert_eq!(menu_label(MenuItem::Delete(3)), "Delete 3 rows");
    assert_eq!(menu_label(MenuItem::Restore(1)), "Restore row");
}

fn copied(target: CopyTarget) -> Option<String> {
    match target {
        CopyTarget::Value(text) => Some(text),
        CopyTarget::Rows => Some("<rows>".to_string()),
        CopyTarget::Nothing => None,
    }
}

#[test]
fn a_copy_takes_the_named_cell_then_the_picked_rows_then_the_selection() {
    let mut grid = ResultDelegate::new(result(), true);
    assert_eq!(copied(grid.copy_target(None, None)), None);
    assert_eq!(copied(grid.copy_target(None, Some((0, 1)))), cell("ada"));
    // A NULL copies as nothing.
    assert_eq!(copied(grid.copy_target(None, Some((1, 1)))), cell(""));
    grid.pick(2, false);
    assert_eq!(copied(grid.copy_target(None, Some((0, 1)))), cell("<rows>"));
    assert_eq!(copied(grid.copy_target(Some((2, 0)), None)), cell("3"));
    assert!(matches!(grid.row_scope(), Scope::Picked));
    grid.clear_row_selection();
    assert!(matches!(grid.row_scope(), Scope::All));
}

#[test]
fn revealing_a_column_finds_it_past_the_checkboxes() {
    let grid = ResultDelegate::new(result(), true);
    assert_eq!(grid.reveal_column("name"), Some((true, 2)));
    assert_eq!(grid.reveal_column("missing"), None);
    let empty = ResultDelegate::new(
        QueryResult {
            columns: vec!["id".to_string()],
            column_types: vec!["INTEGER".to_string()],
            rows: vec![],
        },
        true,
    );
    assert_eq!(empty.reveal_column("id"), Some((false, 1)));
}

#[test]
fn a_header_click_marks_the_column_and_sorts_here_or_asks() {
    let grid = ResultDelegate::new(result(), true);
    assert!(grid.sort_step(0, ColumnSort::Ascending, Sorting::InPlace).is_none());
    assert!(grid.sort_step(4, ColumnSort::Ascending, Sorting::InPlace).is_none());
    match grid.sort_step(2, ColumnSort::Descending, Sorting::InPlace) {
        Some((Some((name, ColumnSort::Descending)), SortStep::Reorder { column: 1, sort })) => {
            assert_eq!(name, "name");
            assert_eq!(sort, ColumnSort::Descending);
        }
        _ => panic!("expected an in-place sort by name"),
    }
    match grid.sort_step(1, ColumnSort::Default, Sorting::Delegated) {
        Some((None, SortStep::Report { column, sort })) => {
            assert_eq!(column, "id");
            assert_eq!(sort, ColumnSort::Default);
        }
        _ => panic!("expected the owner to be asked"),
    }
}

#[test]
fn clearing_shows_nothing_and_keeps_nothing_staged() {
    let mut grid = ResultDelegate::new(result(), true);
    grid.stage(0, 1, cell("grace"));
    grid.add_draft();
    grid.pick(1, false);
    grid.clear();
    assert_eq!(grid.rows(), 0);
    assert!(grid.result.columns.is_empty());
    assert!(!grid.has_unsaved_edits("", false));
    assert!(grid.picked_rows().is_empty());
}
