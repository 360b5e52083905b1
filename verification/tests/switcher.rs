use zippa_db::db::{DatabaseObject, ObjectKind};
use zippa_db::switcher::{entries, SwitcherIcon, SwitcherTarget};

fn object(schema: Option<&str>, name: &str, kind: ObjectKind) -> DatabaseObject {
    DatabaseObject {
        schema: schema.map(str::to_string),
        name: name.to_string(),
        kind,
    }
}

#[test]
fn every_group_in_its_place() {
    let tabs = vec![
        ("Query 1".to_string(), true, None),
        ("items".to_string(), false, Some("/tmp/q.sql".to_string())),
    ];
    let objects = vec![
        (object(Some("app"), "items", ObjectKind::Table), "app.items".to_string()),
        (object(None, "recent", ObjectKind::View), "recent".to_string()),
    ];
    let databases = vec!["main".to_string(), "archive".to_string()];
    let groups = entries(&tabs, 1, &objects, &databases, false, "archive");
    let labels: Vec<&str> = groups.iter().map(|g| g.label.as_str()).collect();
    assert_eq!(labels, vec!["Open Tabs", "Tables & Views", "Actions", "Switch Database"]);

    let tab = &groups[0].items[1];
    assert_eq!(tab.label, "items");
    assert_eq!(tab.icon, SwitcherIcon::Table);
    assert!(tab.checked);
    assert_eq!(tab.keywords, vec!["tab", "table", "open", "/tmp/q.sql"]);
    assert!(matches!(tab.target, SwitcherTarget::Tab(1)));
    assert!(!groups[0].items[0].checked);
    assert_eq!(groups[0].items[0].icon, SwitcherIcon::SquareTerminal);

    let view = &groups[1].items[1];
    assert_eq!(view.icon, SwitcherIcon::Eye);
    assert_eq!(view.keywords, vec!["view", "schema", "object"]);
    assert_eq!(groups[1].items[0].keywords, vec!["table", "schema", "object", "app"]);

    let actions: Vec<&str> = groups[2].items.iter().map(|i| i.label.as_str()).collect();
    assert_eq!(actions, vec!["New Query Tab", "Open SQL File...", "Refresh Schema & Tables"]);

    let db = &groups[3].items[1];
    assert_eq!(db.label, "Database: archive");
    assert!(db.checked);
    assert!(!groups[3].items[0].checked);
}

#[test]
fn a_single_database_or_a_file_has_nothing_to_switch_to() {
    let tabs = vec![("Query 1".to_string(), true, None)];
    let one = vec!["main".to_string()];
    let groups = entries(&tabs, 0, &vec![], &one, false, "main");
    let labels: Vec<&str> = groups.iter().map(|g| g.label.as_str()).collect();
    assert_eq!(labels, vec!["Open Tabs", "Actions"]);

    let two = vec!["main".to_string(), "temp".to_string()];
    let groups = entries(&vec![], 0, &vec![], &two, true, "main");
    let labels: Vec<&str> = groups.iter().map(|g| g.label.as_str()).collect();
    assert_eq!(labels, vec!["Actions"]);
}
