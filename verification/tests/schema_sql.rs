use zippa_db::db::{ColumnDef, DatabaseObject, Engine, ObjectKind};
use zippa_db::sql::{generate_alter_statements, target, ColumnEdit};

fn column(name: &str, data_type: &str, nullable: bool, default: Option<&str>) -> ColumnDef {
    ColumnDef {
        name: name.to_string(),
        data_type: data_type.to_string(),
        nullable,
        default: default.map(str::to_string),
        is_primary_key: false,
        mysql_extra: String::new(),
    }
}

fn kept(original: ColumnDef) -> ColumnEdit {
    ColumnEdit {
        name: original.name.clone(),
        data_type: original.data_type.clone(),
        nullable: original.nullable,
        default: original.default.clone(),
        original: Some(original),
        dropped: false,
    }
}

fn added(name: &str, data_type: &str, nullable: bool, default: Option<&str>) -> ColumnEdit {
    ColumnEdit {
        original: None,
        name: name.to_string(),
        data_type: data_type.to_string(),
        nullable,
        default: default.map(str::to_string),
        dropped: false,
    }
}

#[test]
fn target_is_qualified_only_when_the_object_has_a_schema() {
    let table = DatabaseObject {
        schema: None,
        name: "items".into(),
        kind: ObjectKind::Table,
    };
    assert_eq!(target(&table, Engine::Postgres), "items");

    let qualified = DatabaseObject {
        schema: Some("app".into()),
        ..table
    };
    assert_eq!(target(&qualified, Engine::Postgres), "app.items");
}

#[test]
fn postgres_generates_one_statement_per_changed_property() {
    let mut edit = kept(column("name", "text", true, None));
    edit.name = "full_name".to_string();
    edit.data_type = "varchar(255)".to_string();
    edit.nullable = false;
    edit.default = Some("'anon'".to_string());

    let statements =
        generate_alter_statements(Engine::Postgres, "items", &vec![edit]).expect("should generate");
    assert_eq!(
        statements,
        [
            "ALTER TABLE items RENAME COLUMN name TO full_name",
            "ALTER TABLE items ALTER COLUMN full_name TYPE varchar(255) USING full_name::varchar(255)",
            "ALTER TABLE items ALTER COLUMN full_name SET NOT NULL",
            "ALTER TABLE items ALTER COLUMN full_name SET DEFAULT 'anon'",
        ]
    );
}

#[test]
fn postgres_add_and_drop_column() {
    let mut dropped = kept(column("score", "real", true, None));
    dropped.dropped = true;
    let new = added("rank", "integer", false, Some("0"));

    let statements = generate_alter_statements(Engine::Postgres, "items", &vec![dropped, new])
        .expect("should generate");
    assert_eq!(
        statements,
        [
            "ALTER TABLE items ADD COLUMN rank integer NOT NULL DEFAULT 0",
            "ALTER TABLE items DROP COLUMN score",
        ]
    );
}

#[test]
fn mysql_renames_with_change_column_and_retypes_with_modify() {
    let mut renamed = kept(column("name", "varchar(255)", true, None));
    renamed.name = "full_name".to_string();

    let statements =
        generate_alter_statements(Engine::MySql, "items", &vec![renamed]).expect("should generate");
    assert_eq!(
        statements,
        ["ALTER TABLE items CHANGE COLUMN name full_name varchar(255)"]
    );

    let mut retyped = kept(column("score", "int", true, None));
    retyped.data_type = "bigint".to_string();
    retyped.nullable = false;

    let statements =
        generate_alter_statements(Engine::MySql, "items", &vec![retyped]).expect("should generate");
    assert_eq!(
        statements,
        ["ALTER TABLE items MODIFY COLUMN score bigint NOT NULL"]
    );
}

#[test]
fn sqlite_allows_a_rename_but_refuses_a_retype() {
    let mut renamed = kept(column("name", "TEXT", true, None));
    renamed.name = "full_name".to_string();

    let statements = generate_alter_statements(Engine::Sqlite, "items", &vec![renamed])
        .expect("a rename alone should generate");
    assert_eq!(
        statements,
        ["ALTER TABLE items RENAME COLUMN name TO full_name"]
    );

    let mut retyped = kept(column("score", "INTEGER", true, None));
    retyped.data_type = "REAL".to_string();

    let error = generate_alter_statements(Engine::Sqlite, "items", &vec![retyped])
        .expect_err("a retype should be refused");
    assert!(error.contains("score") && error.contains("rebuilding"));
}

#[test]
fn a_changed_column_cannot_be_renamed_to_nothing() {
    let mut edit = kept(column("name", "text", true, None));
    edit.name = String::new();

    let error = generate_alter_statements(Engine::Postgres, "items", &vec![edit])
        .expect_err("an empty name should be refused");
    assert!(error.contains("name"));
}

#[test]
fn a_blank_added_row_generates_nothing() {
    let statements =
        generate_alter_statements(Engine::Postgres, "items", &vec![added("", "text", true, None)])
            .expect("should generate");
    assert!(statements.is_empty());
}

#[test]
fn nothing_changed_generates_nothing() {
    let statements = generate_alter_statements(
        Engine::Postgres,
        "items",
        &vec![kept(column("name", "text", true, None))],
    )
    .expect("should generate");
    assert!(statements.is_empty());
}
