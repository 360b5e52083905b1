use zippa_db::db::{ColumnDef, DatabaseObject, Engine, IndexDef, ObjectKind, ReferentialAction};
use zippa_db::rebuild::plan;
use zippa_db::schema_form::{
    column_edit, foreign_key_edit, has_changes, has_existing_primary_key, index_edit,
    read_only_reason, referential_actions, toggle_column,
};

fn existing(name: &str) -> ColumnDef {
    ColumnDef {
        name: name.to_string(),
        data_type: "text".to_string(),
        nullable: true,
        default: None,
        is_primary_key: false,
        mysql_extra: String::new(),
    }
}

#[test]
fn a_row_is_taken_as_typed_but_trimmed() {
    let edit = column_edit(Some(existing("name")), "  title ", "text".to_string(), true, "   ", false);
    assert_eq!(edit.name, "title");
    assert_eq!(edit.default, None);
    let edit = column_edit(None, "n", "int".to_string(), false, " 0 ", false);
    assert_eq!(edit.default, Some("0".to_string()));
    assert!(edit.is_new());

    let index = index_edit(None, " idx ", vec!["a".to_string()], true, false, false);
    assert_eq!(index.name, "idx");

    let table = DatabaseObject {
        schema: Some("app".to_string()),
        name: "tags".to_string(),
        kind: ObjectKind::Table,
    };
    let key = foreign_key_edit(
        None,
        "fk ",
        vec!["tag".to_string()],
        Some(&table),
        vec!["id".to_string()],
        ReferentialAction::Cascade,
        ReferentialAction::NoAction,
        false,
    );
    assert_eq!(key.referenced_schema, Some("app".to_string()));
    assert_eq!(key.referenced_table, "tags");
    let unpicked = foreign_key_edit(
        None,
        "",
        vec![],
        None,
        vec![],
        ReferentialAction::NoAction,
        ReferentialAction::NoAction,
        false,
    );
    assert_eq!(unpicked.referenced_table, "");
    assert_eq!(unpicked.referenced_schema, None);
}

#[test]
fn only_real_changes_count_as_changes() {
    let kept = column_edit(Some(existing("name")), "name", "text".to_string(), true, "", false);
    let blank = column_edit(None, "  ", "text".to_string(), true, "", false);
    assert!(!has_changes(&vec![kept.clone(), blank], &vec![], &vec![]));
    let renamed = column_edit(Some(existing("name")), "title", "text".to_string(), true, "", false);
    assert!(has_changes(&vec![kept.clone(), renamed], &vec![], &vec![]));
    let index = index_edit(None, "", vec!["a".to_string()], false, false, false);
    assert!(!has_changes(&vec![kept.clone()], &vec![index], &vec![]));
    let named = index_edit(None, "a_idx", vec!["a".to_string()], false, false, false);
    assert!(has_changes(&vec![kept], &vec![named], &vec![]));
}

#[test]
fn an_unchanged_form_plans_nothing() {
    let object = DatabaseObject {
        schema: None,
        name: "items".to_string(),
        kind: ObjectKind::Table,
    };
    let columns = vec![column_edit(Some(existing("name")), "name", "text".to_string(), true, "", false)];
    assert!(!has_changes(&columns, &vec![], &vec![]));
    for engine in [Engine::Postgres, Engine::MySql, Engine::Sqlite] {
        let change = plan(engine, &object, &columns, &vec![], &vec![], None).unwrap();
        assert!(change.is_empty());
    }
}

#[test]
fn a_kept_primary_key_blocks_a_second_one() {
    let pk = IndexDef {
        name: "items_pkey".to_string(),
        columns: vec!["id".to_string()],
        unique: true,
        is_primary_key: true,
    };
    let kept = index_edit(Some(pk.clone()), "items_pkey", vec!["id".to_string()], true, false, false);
    let dropped = index_edit(Some(pk), "items_pkey", vec!["id".to_string()], true, false, true);
    assert!(has_existing_primary_key(&vec![kept]));
    assert!(!has_existing_primary_key(&vec![dropped]));
}

#[test]
fn pickers_keep_the_order_things_were_picked_in() {
    let mut picked = vec!["b".to_string(), "a".to_string()];
    toggle_column(&mut picked, "c".to_string(), true);
    toggle_column(&mut picked, "a".to_string(), true);
    assert_eq!(picked, vec!["b", "a", "c"]);
    toggle_column(&mut picked, "a".to_string(), false);
    assert_eq!(picked, vec!["b", "c"]);
    toggle_column(&mut picked, "x".to_string(), false);
    assert_eq!(picked, vec!["b", "c"]);
}

#[test]
fn the_footer_says_why_editing_is_off() {
    assert_eq!(read_only_reason(true, ObjectKind::Table), Some("this connection is read-only"));
    assert_eq!(
        read_only_reason(false, ObjectKind::View),
        Some("a view has no columns of its own to change")
    );
    assert_eq!(read_only_reason(false, ObjectKind::Table), None);
    assert_eq!(referential_actions().len(), 5);
    assert_eq!(referential_actions()[2], ReferentialAction::Cascade);
}
