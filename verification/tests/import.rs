use zippa_db::db::Engine;
use zippa_db::import::{
    blocked_reason, preflight_warnings, DoneTone, ImportEnd, ImportError, ImportPhase, ImportRun, ImportSummary,
};

fn summary(errors: Vec<ImportError>, dropped: u64, dump_transaction: bool) -> ImportSummary {
    ImportSummary {
        errors,
        dropped_errors: dropped,
        dump_transaction,
        mysql_rollback_fallback: false,
        total_bytes: 0,
    }
}

fn error(line: u64, statement: &str, message: &str) -> ImportError {
    ImportError {
        line,
        statement: statement.to_string(),
        message: message.to_string(),
    }
}

#[test]
fn an_import_starts_once_and_only_when_not_blocked() {
    let mut run = ImportRun::new();
    assert_eq!(run.phase, ImportPhase::Ready);
    assert!(!run.start(true));
    assert_eq!(run.phase, ImportPhase::Ready);
    assert!(run.start(false));
    assert_eq!(run.phase, ImportPhase::Running);
    assert!(!run.start(false));
    run.finish(ImportEnd::Cancelled);
    assert_eq!(run.phase, ImportPhase::Done);
    assert_eq!(run.failure.as_deref(), Some("Cancelled"));
    assert!(!run.start(false));
}

#[test]
fn a_finished_import_reads_by_its_outcome() {
    let mut run = ImportRun::new();
    run.start(false);
    run.finish(ImportEnd::Finished(summary(vec![], 0, false)));
    assert_eq!(run.tone(), DoneTone::Success);
    assert_eq!(run.headline("12 statements"), "12 statements");
    assert_eq!(run.failures(), 0);

    let mut run = ImportRun::new();
    run.start(false);
    run.finish(ImportEnd::Finished(summary(
        vec![error(4, "DROP TABLE x", "no such table")],
        2,
        false,
    )));
    assert_eq!(run.failures(), 3);
    assert_eq!(run.tone(), DoneTone::Warning);
    assert_eq!(run.error_lines(), vec!["Error at line 4: no such table"]);

    let mut run = ImportRun::new();
    run.start(false);
    run.finish(ImportEnd::Failed("connection lost".to_string()));
    assert_eq!(run.tone(), DoneTone::Failed);
    assert_eq!(run.headline("ignored"), "connection lost");
    assert_eq!(ImportRun::new().headline("ignored"), "Done");
}

#[test]
fn the_log_lists_the_run() {
    let mut run = ImportRun::new();
    run.start(false);
    run.finish(ImportEnd::Finished(summary(
        vec![error(7, "INSERT INTO t VALUES (1)", "duplicate key")],
        1,
        true,
    )));
    let log = run.log("/dumps/shop.sql", "2.0 KB", "9 statements, 1 error");
    assert_eq!(
        log,
        "Import of /dumps/shop.sql (2.0 KB)\n\
         9 statements, 1 error\n\
         The dump carried its own transaction; the import managed it.\n\
         line 7: INSERT INTO t VALUES (1)\n  duplicate key\n\
         \u{2026}and 1 more errors not listed.\n"
    );
    assert_eq!(run.log_size(500), 500);
    assert_eq!(
        run.notes().as_deref(),
        Some("The dump carried its own BEGIN/COMMIT; the import managed them.")
    );

    let mut failed = ImportRun::new();
    failed.finish(ImportEnd::Failed("boom".to_string()));
    assert_eq!(failed.log("a.sql", "10 B", "x"), "Import of a.sql (10 B)\nFailed: boom\n");
    assert_eq!(failed.notes(), None);
}

#[test]
fn the_preflight_warns_in_words() {
    assert_eq!(
        preflight_warnings(Some("This looks like a MySQL dump.".to_string()), 1, Engine::MySql),
        vec![
            "This looks like a MySQL dump.",
            "This dump contains 1 statement that drop or clear data.",
            "MySQL commits DDL itself, so rolling back is not possible; it falls back to stopping.",
        ]
    );
    assert_eq!(
        preflight_warnings(None, 3, Engine::Postgres),
        vec!["This dump contains 3 statements that drop or clear data."]
    );
    assert!(preflight_warnings(None, 0, Engine::Sqlite).is_empty());
}

#[test]
fn an_import_is_blocked_by_the_preflight_or_a_read_only_connection() {
    assert_eq!(
        blocked_reason(Some("the file could not be read".to_string()), Some("read-only")).as_deref(),
        Some("the file could not be read")
    );
    assert_eq!(
        blocked_reason(None, Some("read-only")).as_deref(),
        Some("This connection is read-only \u{2014} importing would write to it.")
    );
    assert_eq!(blocked_reason(None, None), None);
}
