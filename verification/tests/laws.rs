use zippa_db::db::{quote_identifier, ColumnDef, DatabaseObject, Engine, ObjectKind};
use zippa_db::format::{format_value, needs_a_window};
use zippa_db::rebuild::plan;
use zippa_db::sql::{generate_alter_statements, ColumnEdit};
use zippa_db::sqltext::{mentions, rewrite_identifiers, tokenize, unquote};

fn kept(name: &str, data_type: &str) -> ColumnEdit {
    ColumnEdit {
        original: Some(ColumnDef {
            name: name.to_string(),
            data_type: data_type.to_string(),
            nullable: true,
            default: None,
            is_primary_key: false,
            mysql_extra: Default::default(),
        }),
        name: name.to_string(),
        data_type: data_type.to_string(),
        nullable: true,
        default: None,
        dropped: false,
    }
}

fn blank_row() -> ColumnEdit {
    ColumnEdit {
        original: None,
        name: "   ".to_string(),
        data_type: "text".to_string(),
        nullable: true,
        default: None,
        dropped: false,
    }
}

#[test]
fn tokens_laid_end_to_end_give_the_text_back() {
    let sql = "CREATE INDEX \"a \"\"b\" ON t ([x]) -- note\n/* c */ WHERE y = 'it''s'";
    let chars: Vec<char> = sql.chars().collect();
    let mut rebuilt = String::new();
    for token in tokenize(&chars) {
        rebuilt.extend(&chars[token.start..token.end]);
    }
    assert_eq!(rebuilt, sql);
}

#[test]
fn a_quoted_identifier_reads_back_as_its_name() {
    for name in ["plain", "with space", "has\"quote", "has`tick", "", "9lives"] {
        for engine in [Engine::Postgres, Engine::MySql, Engine::Sqlite] {
            let quoted: Vec<char> = quote_identifier(name, engine).chars().collect();
            let back: String = unquote(&quoted).into_iter().collect();
            assert_eq!(back, name);
        }
    }
}

#[test]
fn renames_the_sql_does_not_mention_change_nothing() {
    let sql = "CREATE INDEX i ON items (name) WHERE body = 'score' -- score";
    assert!(!mentions(sql, "score"));
    let renames = vec![("score".to_string(), "points".to_string())];
    assert_eq!(rewrite_identifiers(sql, &renames), sql);
}

#[test]
fn a_form_that_asks_for_nothing_plans_nothing_on_any_engine() {
    let object = DatabaseObject {
        schema: None,
        name: "items".to_string(),
        kind: ObjectKind::Table,
    };
    let columns = vec![kept("id", "integer"), blank_row()];
    for engine in [Engine::Postgres, Engine::MySql, Engine::Sqlite] {
        let change = plan(engine, &object, &columns, &vec![], &vec![], None).unwrap();
        assert!(change.is_empty());
        assert!(!change.is_rebuild());
        assert_eq!(
            generate_alter_statements(engine, "items", &columns).unwrap(),
            Vec::<String>::new()
        );
    }
}

#[test]
fn a_value_shown_other_than_as_typed_wants_a_window() {
    let json = Some("{\"a\":1}".to_string());
    assert_ne!(format_value(&json, "TEXT"), "{\"a\":1}");
    assert!(needs_a_window(&json, "TEXT"));

    let plain = Some("short".to_string());
    assert_eq!(format_value(&plain, "TEXT"), "short");
    assert!(!needs_a_window(&plain, "TEXT"));
}
