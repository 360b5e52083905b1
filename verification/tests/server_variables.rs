use zippa_db::filter::{compile, filter_variables, keep_variables, visible_objects};
use zippa_db::query::QueryResult;

fn fixture() -> QueryResult {
    QueryResult {
        columns: vec!["name".into(), "setting".into(), "changed".into()],
        rows: vec![
            vec![
                Some("max_connections".into()),
                Some("100".into()),
                Some(String::new()),
            ],
            vec![
                Some("work_mem".into()),
                Some("64MB".into()),
                Some("yes".into()),
            ],
            vec![
                Some("shared_buffers".into()),
                Some("128MB".into()),
                Some(String::new()),
            ],
        ],
        ..QueryResult::default()
    }
}

#[test]
fn no_filter_and_not_changed_only_keeps_everything() {
    let result = filter_variables(&fixture(), None, false);
    assert_eq!(result.rows.len(), 3);
}

#[test]
fn the_name_filter_matches_case_insensitively() {
    let filter = compile("MEM").unwrap();
    let result = filter_variables(&fixture(), Some(&filter), false);
    assert_eq!(result.rows.len(), 1);
    assert_eq!(result.rows[0][0].as_deref(), Some("work_mem"));
}

#[test]
fn changed_only_keeps_the_rows_flagged_yes() {
    let result = filter_variables(&fixture(), None, true);
    assert_eq!(result.rows.len(), 1);
    assert_eq!(result.rows[0][0].as_deref(), Some("work_mem"));
}

#[test]
fn both_filters_combine() {
    let filter = compile("shared").unwrap();
    let result = filter_variables(&fixture(), Some(&filter), true);
    assert!(
        result.rows.is_empty(),
        "shared_buffers matches the name but was not changed"
    );
}

#[test]
fn an_empty_box_filters_nothing() {
    assert!(compile("").is_none());
}

#[test]
fn a_pattern_still_being_typed_matches_literally() {
    // `max(` is not a valid regex; it is matched as the text itself.
    let filter = compile("CONNECTIONS(").unwrap();
    let mut result = fixture();
    result.rows[0][0] = Some("max_connections(".into());
    let narrowed = filter_variables(&result, Some(&filter), false);
    assert_eq!(narrowed.rows.len(), 1);
    assert_eq!(narrowed.rows[0][0].as_deref(), Some("max_connections("));
}

#[test]
fn a_regex_is_a_regex() {
    let filter = compile("^(work|shared)_").unwrap();
    let result = filter_variables(&fixture(), Some(&filter), false);
    assert_eq!(result.rows.len(), 2);
}

#[test]
fn a_row_without_a_name_never_matches_a_filter() {
    let mut result = fixture();
    result.rows[1][0] = None;
    let filter = compile("a").unwrap();
    let narrowed = filter_variables(&result, Some(&filter), false);
    assert_eq!(narrowed.rows.len(), 2);
}

#[test]
fn the_decisions_are_taken_as_given() {
    let kept = keep_variables(&fixture(), &vec![true, false, true], false);
    assert_eq!(kept.rows.len(), 2);
    assert_eq!(kept.rows[1][0].as_deref(), Some("shared_buffers"));
    assert_eq!(kept.columns, fixture().columns);
}

#[test]
fn the_sidebar_filter_keeps_the_matching_objects_in_order() {
    let labels = vec![
        "public.orders".to_string(),
        "public.order_items".to_string(),
        "audit.log".to_string(),
    ];
    assert_eq!(visible_objects(&labels, None), vec![0, 1, 2]);
    let filter = compile("ORDER").expect("compiles");
    assert_eq!(visible_objects(&labels, Some(&filter)), vec![0, 1]);
    // A half-typed pattern is taken literally.
    let literal = compile("log(").expect("compiles as text");
    assert!(visible_objects(&labels, Some(&literal)).is_empty());
}
