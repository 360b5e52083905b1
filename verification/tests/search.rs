use zippa_db::search::{
    empty_state, group_hits, heading, narrow_kinds, notice, row_meta, toggle_kind, CatalogKind,
};

#[test]
fn a_chip_switches_on_and_off() {
    let mut kinds = vec![CatalogKind::Column, CatalogKind::Index];
    toggle_kind(&mut kinds, CatalogKind::Trigger);
    assert_eq!(
        kinds,
        vec![CatalogKind::Column, CatalogKind::Index, CatalogKind::Trigger]
    );
    toggle_kind(&mut kinds, CatalogKind::Column);
    assert_eq!(kinds, vec![CatalogKind::Index, CatalogKind::Trigger]);
}

#[test]
fn switching_a_chip_twice_keeps_the_same_kinds() {
    let mut kinds = vec![CatalogKind::Table, CatalogKind::Routine];
    toggle_kind(&mut kinds, CatalogKind::Table);
    toggle_kind(&mut kinds, CatalogKind::Table);
    assert_eq!(kinds, vec![CatalogKind::Routine, CatalogKind::Table]);

    let mut kinds = vec![CatalogKind::Table];
    toggle_kind(&mut kinds, CatalogKind::View);
    toggle_kind(&mut kinds, CatalogKind::View);
    assert_eq!(kinds, vec![CatalogKind::Table]);
}

#[test]
fn chips_add_only_the_kinds_the_query_lacks() {
    let kinds = narrow_kinds(
        vec![CatalogKind::Column],
        &vec![CatalogKind::Index, CatalogKind::Column, CatalogKind::Index],
    );
    assert_eq!(kinds, vec![CatalogKind::Column, CatalogKind::Index]);
}

#[test]
fn hits_are_grouped_under_their_headings_in_rank_order() {
    let hits = vec![
        CatalogKind::Column,
        CatalogKind::Table,
        CatalogKind::Column,
        CatalogKind::Trigger,
        CatalogKind::View,
    ];
    let sections = group_hits(&hits);
    assert_eq!(
        sections,
        vec![(0, vec![1, 4]), (1, vec![0, 2]), (4, vec![3])]
    );
    assert!(group_hits(&vec![]).is_empty());
    assert_eq!(heading(CatalogKind::Routine), 3);
}

#[test]
fn a_row_names_its_owner_and_detail() {
    assert_eq!(
        row_meta(Some("public.orders".to_string()), "uuid"),
        "public.orders \u{b7} uuid"
    );
    assert_eq!(row_meta(None, "uuid"), "uuid");
    assert_eq!(row_meta(Some("orders".to_string()), ""), "orders");
    assert_eq!(row_meta(None, ""), "");
}

#[test]
fn the_empty_list_says_why_it_is_empty() {
    assert_eq!(
        empty_state(true, false, Some("denied")),
        ("Error: denied".to_string(), true)
    );
    assert_eq!(
        empty_state(false, false, None),
        ("Loading schema\u{2026}".to_string(), false)
    );
    assert_eq!(
        empty_state(true, true, None),
        ("Loading schema\u{2026}".to_string(), false)
    );
    assert_eq!(empty_state(true, false, None), ("No matches".to_string(), false));
}

#[test]
fn the_notice_counts_the_matches_and_the_caps() {
    assert_eq!(notice(1, 200, 10, None, None), ("1 match".to_string(), false));
    assert_eq!(
        notice(250, 200, 5000, Some(9000), Some("timeout")),
        (
            "Error: timeout \u{2014} showing names only \u{b7} 250 matches \u{b7} showing the first 200 \u{b7} Showing first 5000 of 9000 entries."
                .to_string(),
            true
        )
    );
    assert_eq!(notice(0, 200, 3, None, None), ("0 matches".to_string(), false));
}
