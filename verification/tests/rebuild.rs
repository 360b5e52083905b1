use zippa_db::db::{
    ColumnDef, DatabaseObject, ForeignKeyDef, IndexDef, ObjectKind, RebuildSource,
    ReferentialAction, StoredDefinition,
};
use zippa_db::rebuild::{generate, sqlite_plan, Change};
use zippa_db::sql::{ColumnEdit, ForeignKeyEdit, IndexEdit};
use zippa_db::sqltext::rewrite_identifiers;

fn column(name: &str, data_type: &str, nullable: bool, default: Option<&str>) -> ColumnEdit {
    ColumnEdit {
        original: Some(ColumnDef {
            name: name.to_string(),
            data_type: data_type.to_string(),
            nullable,
            default: default.map(str::to_string),
            is_primary_key: false,
            mysql_extra: Default::default(),
        }),
        name: name.to_string(),
        data_type: data_type.to_string(),
        nullable,
        default: default.map(str::to_string),
        dropped: false,
    }
}

fn table(name: &str) -> DatabaseObject {
    DatabaseObject {
        schema: None,
        name: name.to_string(),
        kind: ObjectKind::Table,
    }
}

fn source(create: &str) -> RebuildSource {
    RebuildSource {
        table_sql: create.to_string(),
        ..RebuildSource::default()
    }
}

const ITEMS: &str = "CREATE TABLE items (\n    id INTEGER PRIMARY KEY,\n    name TEXT\n)";

#[test]
fn a_retype_becomes_a_copy_and_swap() {
    let mut score = column("score", "REAL", true, None);
    score.data_type = "TEXT".to_string();

    let change = generate(
        &table("items"),
        &vec![
            column("id", "INTEGER", true, None),
            column("name", "TEXT", true, None),
            score,
        ],
        &vec![],
        &vec![],
        &source(ITEMS),
    )
    .expect("a plain table should rebuild");

    let Change::Rebuild(statements) = change else {
        panic!("a retype should be a rebuild");
    };
    assert_eq!(
        statements,
        [
            "CREATE TABLE new_items (\n    id INTEGER,\n    name TEXT,\n    score TEXT\n)",
            "INSERT INTO new_items (id, name, score) SELECT id, name, score FROM items",
            "DROP TABLE items",
            "ALTER TABLE new_items RENAME TO items",
        ]
    );
}

#[test]
fn an_added_column_is_left_out_of_the_copy() {
    let added = ColumnEdit {
        original: None,
        name: "note".to_string(),
        data_type: "TEXT".to_string(),
        nullable: true,
        default: None,
        dropped: false,
    };
    let mut score = column("score", "REAL", true, None);
    score.data_type = "TEXT".to_string();

    let change = generate(
        &table("items"),
        &vec![column("id", "INTEGER", true, None), score, added],
        &vec![],
        &vec![],
        &source(ITEMS),
    )
    .unwrap();

    let Change::Rebuild(statements) = change else {
        panic!("expected a rebuild");
    };
    assert!(
        statements[1].contains("INSERT INTO new_items (id, score) SELECT id, score FROM items")
    );
}

#[test]
fn a_rename_is_spelled_out_in_the_copy() {
    let mut renamed = column("name", "TEXT", true, None);
    renamed.name = "headline".to_string();

    let change = generate(
        &table("items"),
        &vec![column("id", "INTEGER", true, None), renamed],
        &vec![],
        &vec![],
        &source(ITEMS),
    )
    .unwrap();

    let Change::Rebuild(statements) = change else {
        panic!("expected a rebuild");
    };
    assert_eq!(
        statements[1],
        "INSERT INTO new_items (id, headline) SELECT id, name FROM items"
    );
}

#[test]
fn an_explicit_index_is_replayed() {
    let mut source = source(ITEMS);
    source.indexes.push(StoredDefinition {
        name: "items_name_idx".to_string(),
        sql: "CREATE INDEX items_name_idx ON items (name)".to_string(),
    });
    let index = IndexEdit {
        original: Some(IndexDef {
            name: "items_name_idx".to_string(),
            columns: vec!["name".to_string()],
            unique: false,
            is_primary_key: false,
        }),
        name: "items_name_idx".to_string(),
        columns: vec!["name".to_string()],
        unique: false,
        primary_key: false,
        dropped: false,
    };

    let mut score = column("score", "REAL", true, None);
    score.data_type = "TEXT".to_string();
    let change = generate(
        &table("items"),
        &vec![
            column("id", "INTEGER", true, None),
            column("name", "TEXT", true, None),
            score,
        ],
        &vec![index],
        &vec![],
        &source,
    )
    .unwrap();

    let Change::Rebuild(statements) = change else {
        panic!("expected a rebuild");
    };
    assert!(
        statements
            .iter()
            .any(|statement| statement == "CREATE INDEX items_name_idx ON items (name)")
    );
}

#[test]
fn a_unique_constraint_goes_back_as_one() {
    let source = source(ITEMS);
    // The auto-index behind `UNIQUE` has no SQL of its own.
    let index = IndexEdit {
        original: Some(IndexDef {
            name: "sqlite_autoindex_items_1".to_string(),
            columns: vec!["name".to_string()],
            unique: true,
            is_primary_key: false,
        }),
        name: "sqlite_autoindex_items_1".to_string(),
        columns: vec!["name".to_string()],
        unique: true,
        primary_key: false,
        dropped: false,
    };
    let mut score = column("score", "REAL", true, None);
    score.data_type = "TEXT".to_string();

    let change = generate(
        &table("items"),
        &vec![
            column("id", "INTEGER", true, None),
            column("name", "TEXT", true, None),
            score,
        ],
        &vec![index],
        &vec![],
        &source,
    )
    .unwrap();

    let Change::Rebuild(statements) = change else {
        panic!("expected a rebuild");
    };
    assert!(statements[0].contains("UNIQUE (name)"));
}

#[test]
fn a_check_constraint_refuses_the_rebuild() {
    let create = "CREATE TABLE items (id INTEGER PRIMARY KEY, n INTEGER CHECK (n > 0))";
    let mut n = column("n", "INTEGER", true, None);
    n.data_type = "TEXT".to_string();

    let error = generate(
        &table("items"),
        &vec![column("id", "INTEGER", true, None), n],
        &vec![],
        &vec![],
        &source(create),
    )
    .unwrap_err();
    assert!(error.contains("CHECK"));
}

#[test]
fn a_dropped_column_that_an_index_reads_is_refused() {
    let mut source = source(ITEMS);
    source.indexes.push(StoredDefinition {
        name: "items_name_idx".to_string(),
        sql: "CREATE INDEX items_name_idx ON items (name)".to_string(),
    });

    let mut name = column("name", "TEXT", true, None);
    name.dropped = true;
    let mut score = column("score", "REAL", true, None);
    score.data_type = "TEXT".to_string();
    let index = IndexEdit {
        original: Some(IndexDef {
            name: "items_name_idx".to_string(),
            columns: vec!["name".to_string()],
            unique: false,
            is_primary_key: false,
        }),
        name: "items_name_idx".to_string(),
        columns: vec!["name".to_string()],
        unique: false,
        primary_key: false,
        dropped: false,
    };

    let error = generate(
        &table("items"),
        &vec![column("id", "INTEGER", true, None), name, score],
        &vec![index],
        &vec![],
        &source,
    )
    .unwrap_err();
    assert!(error.contains("items_name_idx") && error.contains("name"));
}

#[test]
fn a_foreign_key_row_becomes_a_table_constraint() {
    let edit = ForeignKeyEdit {
        original: None,
        name: "items_tag_fkey".to_string(),
        columns: vec!["name".to_string()],
        referenced_schema: None,
        referenced_table: "tags".to_string(),
        referenced_columns: vec!["id".to_string()],
        on_delete: ReferentialAction::Cascade,
        on_update: ReferentialAction::NoAction,
        dropped: false,
    };
    let mut score = column("score", "REAL", true, None);
    score.data_type = "TEXT".to_string();

    let change = generate(
        &table("items"),
        &vec![
            column("id", "INTEGER", true, None),
            column("name", "TEXT", true, None),
            score,
        ],
        &vec![],
        &vec![edit],
        &source("CREATE TABLE items (id INTEGER PRIMARY KEY, name TEXT, score REAL)"),
    )
    .unwrap();

    let Change::Rebuild(statements) = change else {
        panic!("expected a rebuild");
    };
    assert!(statements[0].contains(
        "CONSTRAINT items_tag_fkey FOREIGN KEY (name) REFERENCES tags (id) \
             ON DELETE CASCADE ON UPDATE NO ACTION"
    ));
}

#[test]
fn a_constraint_whose_column_is_dropped_goes_with_it() {
    // A composite key and a unique constraint, both reading a column the
    // form is dropping.
    let pk = IndexEdit {
        original: Some(IndexDef {
            name: "sqlite_autoindex_items_1".to_string(),
            columns: vec!["name".to_string(), "score".to_string()],
            unique: true,
            is_primary_key: true,
        }),
        name: "sqlite_autoindex_items_1".to_string(),
        columns: vec!["name".to_string(), "score".to_string()],
        unique: true,
        primary_key: true,
        dropped: false,
    };
    let unique = IndexEdit {
        original: Some(IndexDef {
            name: "sqlite_autoindex_items_2".to_string(),
            columns: vec!["score".to_string()],
            unique: true,
            is_primary_key: false,
        }),
        name: "sqlite_autoindex_items_2".to_string(),
        columns: vec!["score".to_string()],
        unique: true,
        primary_key: false,
        dropped: false,
    };
    let mut score = column("score", "REAL", true, None);
    score.dropped = true;

    let change = generate(
        &table("items"),
        &vec![column("id", "INTEGER", true, None), column("name", "TEXT", true, None), score],
        &vec![pk, unique],
        &vec![],
        &source("CREATE TABLE items (id INTEGER, name TEXT, score REAL, UNIQUE (score), PRIMARY KEY (name, score))"),
    )
    .unwrap();

    let Change::Rebuild(statements) = change else {
        panic!("expected a rebuild");
    };
    assert!(!statements[0].contains("PRIMARY KEY"));
    assert!(!statements[0].contains("UNIQUE"));
    assert!(!statements[1].contains("score"));
}

#[test]
fn identifiers_are_rewritten_outside_strings_and_comments() {
    let sql = "CREATE INDEX i ON items (name) -- name\n/* name */ WHERE body = 'name'";
    assert_eq!(
        rewrite_identifiers(sql, &vec![("name".to_string(), "title".to_string())]),
        "CREATE INDEX i ON items (title) -- name\n/* name */ WHERE body = 'name'"
    );
}

#[test]
fn a_composite_primary_key_keeps_its_own_column_order() {
    let pk = IndexEdit {
        original: Some(IndexDef {
            name: "sqlite_autoindex_items_1".to_string(),
            columns: vec!["score".to_string(), "name".to_string()],
            unique: true,
            is_primary_key: true,
        }),
        name: "sqlite_autoindex_items_1".to_string(),
        columns: vec!["name".to_string(), "score".to_string()],
        unique: true,
        primary_key: true,
        dropped: false,
    };
    let mut score = column("score", "REAL", true, None);
    score.data_type = "TEXT".to_string();

    let change = generate(
        &table("items"),
        &vec![
            column("id", "INTEGER", true, None),
            column("name", "TEXT", true, None),
            score,
        ],
        &vec![pk],
        &vec![],
        &source(
            "CREATE TABLE items (id INTEGER, name TEXT, score REAL, PRIMARY KEY (score, name))",
        ),
    )
    .unwrap();

    let Change::Rebuild(statements) = change else {
        panic!("expected a rebuild");
    };
    assert!(statements[0].contains("PRIMARY KEY (score, name)"));
}

#[test]
fn a_free_of_change_records_nothing() {
    let mut score = column("score", "REAL", true, None);
    score.data_type = "REAL".to_string();
    let change = sqlite_plan(
        &table("items"),
        &vec![column("id", "INTEGER", true, None), score],
        &vec![],
        &vec![],
        Some(&source(ITEMS)),
    )
    .unwrap();
    assert!(change.is_empty());
}

#[test]
fn a_foreign_key_only_change_rebuilds_even_without_a_column_edit() {
    let edit = ForeignKeyEdit {
        original: Some(ForeignKeyDef {
            name: "fk_1".to_string(),
            columns: vec!["name".to_string()],
            referenced_schema: None,
            referenced_table: "tags".to_string(),
            referenced_columns: vec!["id".to_string()],
            on_delete: ReferentialAction::NoAction,
            on_update: ReferentialAction::NoAction,
        }),
        name: "fk_1".to_string(),
        columns: vec!["name".to_string()],
        referenced_schema: None,
        referenced_table: "tags".to_string(),
        referenced_columns: vec!["id".to_string()],
        on_delete: ReferentialAction::NoAction,
        on_update: ReferentialAction::NoAction,
        dropped: true,
    };

    let change = sqlite_plan(
        &table("items"),
        &vec![
            column("id", "INTEGER", true, None),
            column("name", "TEXT", true, None),
        ],
        &vec![],
        &vec![edit],
        Some(&source(ITEMS)),
    )
    .unwrap();
    assert!(change.is_rebuild());
}
