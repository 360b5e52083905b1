use zippa_db::filter_bar::{column_choices, filter_line, specs, FilterBar, FilterSpec, Operator};

#[test]
fn every_label_reads_back_as_its_operator() {
    for operator in Operator::ALL {
        assert_eq!(Operator::from_label(operator.label()), Some(operator));
    }
    assert_eq!(Operator::from_label("=="), None);
    assert_eq!(Operator::from_label("like"), None);
    assert_eq!(Operator::NotLike.label(), "NOT LIKE");
    assert_eq!(Operator::NotEquals.label(), "<>");
}

#[test]
fn only_null_tests_go_without_a_value() {
    for operator in Operator::ALL {
        let expected = !matches!(operator, Operator::IsNull | Operator::IsNotNull);
        assert_eq!(operator.needs_value(), expected);
    }
    assert!(Operator::In.takes_expression());
    assert!(Operator::NotIn.takes_expression());
    assert!(!Operator::Like.takes_expression());
    assert_eq!(Operator::In.value_hint(), "1, 2 or select id from …");
    assert_eq!(Operator::Equals.value_hint(), "value");
}

#[test]
fn an_unfinished_line_narrows_nothing() {
    assert_eq!(filter_line(None, Some("="), "1"), None);
    assert_eq!(filter_line(Some("id"), None, "1"), None);
    assert_eq!(filter_line(Some("id"), Some("=="), "1"), None);
    assert_eq!(filter_line(Some("id"), Some("="), "   "), None);
    assert_eq!(
        filter_line(Some("id"), Some("IS NULL"), "  "),
        Some(FilterSpec {
            column: "id".to_string(),
            operator: Operator::IsNull,
            value: String::new(),
        })
    );
    assert_eq!(
        filter_line(Some("name"), Some("LIKE"), "  a%  "),
        Some(FilterSpec {
            column: "name".to_string(),
            operator: Operator::Like,
            value: "a%".to_string(),
        })
    );
}

#[test]
fn the_finished_lines_come_out_in_order() {
    let lines = vec![
        (Some("id".to_string()), Some(">".to_string()), "3".to_string()),
        (Some("name".to_string()), Some("=".to_string()), String::new()),
        (Some("note".to_string()), Some("IS NOT NULL".to_string()), String::new()),
    ];
    let out = specs(&lines);
    assert_eq!(out.len(), 2);
    assert_eq!(out[0].operator, Operator::Greater);
    assert_eq!(out[1].column, "note");
}

#[test]
fn a_filter_set_from_outside_picks_its_column() {
    let columns = vec!["id".to_string(), "name".to_string()];
    assert_eq!(column_choices(&columns, "name"), (columns.clone(), 1));
    assert_eq!(column_choices(&columns, "gone"), (vec!["gone".to_string()], 0));
}

fn names(list: &[&str]) -> Vec<String> {
    list.iter().map(|n| n.to_string()).collect()
}

#[test]
fn a_new_line_starts_on_the_first_column() {
    let mut bar = FilterBar::new();
    bar.add_filter();
    assert!(bar.lines.is_empty());
    assert!(bar.set_columns(names(&["id", "name"])));
    bar.add_filter();
    assert_eq!(
        bar.lines,
        vec![(Some("id".to_string()), Some("=".to_string()), String::new())]
    );
    // An empty value leaves the line unfinished.
    assert!(bar.specs().is_empty());
}

#[test]
fn new_columns_clear_the_lines_written_for_the_old_ones() {
    let mut bar = FilterBar::new();
    bar.set_columns(names(&["id"]));
    bar.add_filter();
    assert!(!bar.set_columns(names(&["id"])));
    assert_eq!(bar.lines.len(), 1);
    assert!(bar.set_columns(names(&["code", "title"])));
    assert!(bar.lines.is_empty());
}

#[test]
fn a_filter_set_from_outside_replaces_the_others() {
    let mut bar = FilterBar::new();
    bar.set_columns(names(&["id", "tag_id"]));
    bar.add_filter();
    bar.add_filter();
    let items = bar.set_filter("tag_id", Operator::Equals, "7");
    assert_eq!(items, names(&["id", "tag_id"]));
    assert_eq!(
        bar.specs(),
        vec![FilterSpec {
            column: "tag_id".to_string(),
            operator: Operator::Equals,
            value: "7".to_string()
        }]
    );
    // Before the table's columns are known the line offers its own column.
    let mut fresh = FilterBar::new();
    assert_eq!(fresh.set_filter("id", Operator::IsNull, ""), names(&["id"]));
    assert_eq!(fresh.specs().len(), 1);
}

#[test]
fn removing_and_clearing_say_whether_anything_went() {
    let mut bar = FilterBar::new();
    bar.set_columns(names(&["id"]));
    assert!(!bar.clear());
    bar.add_filter();
    bar.add_filter();
    assert!(!bar.remove_filter(5));
    assert!(bar.remove_filter(0));
    assert_eq!(bar.lines.len(), 1);
    assert!(bar.clear());
    assert!(bar.lines.is_empty());
}
