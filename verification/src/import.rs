//! The import dialog's state: a pre-flight where nothing has run, a running
//! import, and a finished one with its summary or failure; and the lines of
//! text the dialog and its log are made of.
//!
//! The import itself runs elsewhere; the dialog is told when it ends and
//! how.

use vstd::prelude::*;
use crate::db::Engine;
use crate::panels::{import_notes, import_notes_spec, plural};
use crate::text::{decimal, decimal_string, opt_view};

verus! {

/// Where the dialog is.
#[derive(Clone, Copy, PartialEq, Eq, Structural, Debug)]
pub enum ImportPhase {
    /// Waiting for the user to start.
    Ready,
    /// An import is in flight.
    Running,
    /// The import ended, one way or another.
    Done,
}

/// A statement the server refused during an import.
#[derive(Clone, Debug)]
pub struct ImportError {
    /// The line of the dump the statement starts on.
    pub line: u64,
    pub statement: String,
    pub message: String,
}

/// What a finished import reports of itself, as far as the dialog reads it.
#[derive(Clone, Debug)]
pub struct ImportSummary {
    /// The errors kept for display, in the order they happened.
    pub errors: Vec<ImportError>,
    /// How many more errors there were than `errors` keeps.
    pub dropped_errors: u64,
    /// The dump carried its own `BEGIN`/`COMMIT`, which the import managed.
    pub dump_transaction: bool,
    /// A rollback was asked of MySQL, which cannot do it, so the run
    /// stopped at the first error instead.
    pub mysql_rollback_fallback: bool,
    /// The bytes read, or zero when the run did not count them.
    pub total_bytes: u64,
}

/// How an import ended.
#[derive(Clone, Debug)]
pub enum ImportEnd {
    /// It ran to its end, with this summary.
    Finished(ImportSummary),
    /// It failed as a whole, with this message.
    Failed(String),
    /// It was given up on.
    Cancelled,
}

/// The dialog's state.
pub struct ImportRun {
    pub phase: ImportPhase,
    pub summary: Option<ImportSummary>,
    pub failure: Option<String>,
}

/// How a finished import's headline reads: a failure, a run with errors,
/// or a clean run.
#[derive(Clone, Copy, PartialEq, Eq, Structural, Debug)]
pub enum DoneTone {
    Failed,
    Warning,
    Success,
}

/// A count of errors as the summary gives it: those kept plus those
/// dropped.
pub open spec fn error_count(s: ImportSummary) -> int {
    s.errors@.len() + s.dropped_errors
}

impl ImportRun {
    /// The dialog as it opens: ready, nothing run.
    pub fn new() -> (r: Self)
        ensures
            r.phase == ImportPhase::Ready,
            r.summary is None,
            r.failure is None,
    {
        ImportRun { phase: ImportPhase::Ready, summary: None, failure: None }
    }

    /// Start an import, unless one has already run or `blocked` (a reason
    /// it cannot start) holds. The answer is whether it started; a start
    /// clears what an earlier run left.
    pub fn start(&mut self, blocked: bool) -> (r: bool)
        ensures
            r == (old(self).phase == ImportPhase::Ready && !blocked),
            r ==> final(self).phase == ImportPhase::Running && final(self).summary is None
                && final(self).failure is None,
            !r ==> final(self).phase == old(self).phase && final(self).summary == old(self).summary
                && final(self).failure == old(self).failure,
    {
        if self.phase != ImportPhase::Ready || blocked {
            return false;
        }
        self.phase = ImportPhase::Running;
        self.summary = None;
        self.failure = None;
        true
    }

    /// The import ended: the dialog is done and keeps the summary, or the
    /// failure (`Cancelled` for a run given up on).
    pub fn finish(&mut self, end: ImportEnd)
        ensures
            final(self).phase == ImportPhase::Done,
            match end {
                ImportEnd::Finished(s) => final(self).summary == Some(s)
                    && final(self).failure == old(self).failure,
                ImportEnd::Failed(m) => opt_view(final(self).failure) == Some(m@)
                    && final(self).summary == old(self).summary,
                ImportEnd::Cancelled => opt_view(final(self).failure) == Some("Cancelled"@)
                    && final(self).summary == old(self).summary,
            },
    {
        self.phase = ImportPhase::Done;
        match end {
            ImportEnd::Finished(s) => {
                self.summary = Some(s);
            },
            ImportEnd::Failed(m) => {
                self.failure = Some(m);
            },
            ImportEnd::Cancelled => {
                self.failure = Some(String::from_str("Cancelled"));
            },
        }
    }

    /// How many statements failed: those the summary kept and those it
    /// only counted; none without a summary.
    pub fn failures(&self) -> (r: u64)
        requires
            self.summary matches Some(s) ==> error_count(s) <= u64::MAX,
        ensures
            r == match self.summary {
                Some(s) => error_count(s),
                None => 0,
            },
    {
        match &self.summary {
            Some(s) => s.errors.len() as u64 + s.dropped_errors,
            None => 0,
        }
    }

    /// How the headline of a finished import reads.
    pub fn tone(&self) -> (r: DoneTone)
        requires
            self.summary matches Some(s) ==> error_count(s) <= u64::MAX,
        ensures
            self.failure is Some ==> r == DoneTone::Failed,
            self.failure is None && (self.summary matches Some(s) && error_count(s) > 0) ==> r
                == DoneTone::Warning,
            self.failure is None && !(self.summary matches Some(s) && error_count(s) > 0) ==> r
                == DoneTone::Success,
    {
        if self.failure.is_some() {
            DoneTone::Failed
        } else if self.failures() > 0 {
            DoneTone::Warning
        } else {
            DoneTone::Success
        }
    }

    /// The headline of a finished import: the failure, else the summary's
    /// own line (`summary_line`), else `Done`.
    pub fn headline(&self, summary_line: &str) -> (r: String)
        ensures
            r@ == match self.failure {
                Some(f) => f@,
                None => if self.summary is Some {
                    summary_line@
                } else {
                    "Done"@
                },
            },
    {
        match &self.failure {
            Some(f) => crate::text::copy_string(f),
            None => if self.summary.is_some() {
                String::from_str(summary_line)
            } else {
                String::from_str("Done")
            },
        }
    }

    /// The small print under a finished import's counts.
    pub fn notes(&self) -> (r: Option<String>)
        ensures
            opt_view(r) == match self.summary {
                Some(s) => import_notes_spec(s.dump_transaction, s.mysql_rollback_fallback),
                None => None,
            },
    {
        match &self.summary {
            Some(s) => import_notes(s.dump_transaction, s.mysql_rollback_fallback),
            None => None,
        }
    }

    /// One line per error the summary kept: `Error at line N: message`.
    pub fn error_lines(&self) -> (r: Vec<String>)
        ensures
            match self.summary {
                Some(s) => r@.len() == s.errors@.len() && forall|i: int|
                    0 <= i < r@.len() ==> (#[trigger] r@[i])@ == error_line_text(s.errors@[i]),
                None => r@.len() == 0,
            },
    {
        let mut r: Vec<String> = Vec::new();
        match &self.summary {
            Some(s) => {
                let mut i: usize = 0;
                while i < s.errors.len()
                    invariant
                        i <= s.errors@.len(),
                        r@.len() == i,
                        forall|k: int| 0 <= k < i ==> (#[trigger] r@[k])@ == error_line_text(s.errors@[k]),
                    decreases s.errors.len() - i,
                {
                    let e = &s.errors[i];
                    let mut t = String::from_str("Error at line ");
                    t.append(decimal_string(e.line).as_str());
                    t.append(": ");
                    t.append(e.message.as_str());
                    r.push(t);
                    i = i + 1;
                }
            },
            None => {},
        }
        r
    }

    /// The size the log names: what the run counted when it counted any,
    /// else the size the pre-flight read.
    pub fn log_size(&self, preflight_bytes: u64) -> (r: u64)
        ensures
            r == match self.summary {
                Some(s) => if s.total_bytes > 0 {
                    s.total_bytes
                } else {
                    preflight_bytes
                },
                None => preflight_bytes,
            },
    {
        match &self.summary {
            Some(s) => if s.total_bytes > 0 {
                s.total_bytes
            } else {
                preflight_bytes
            },
            None => preflight_bytes,
        }
    }

    /// The whole run as text, for the clipboard: what was imported and how
    /// big it is (`size`, already written for a reader), the failure, then
    /// the summary's line (`summary_line`), the managed transaction, each
    /// kept error with its statement, and how many more were not kept.
    pub fn log(&self, path: &str, size: &str, summary_line: &str) -> (r: String)
        ensures
            r@ == log_text(self.summary, opt_view(self.failure), path@, size@, summary_line@),
    {
        let mut t = String::from_str("Import of ");
        t.append(path);
        t.append(" (");
        t.append(size);
        t.append(")\n");
        match &self.failure {
            Some(f) => {
                t.append("Failed: ");
                t.append(f.as_str());
                t.append("\n");
            },
            None => {},
        }
        match &self.summary {
            Some(s) => {
                t.append(summary_line);
                t.append("\n");
                if s.dump_transaction {
                    t.append("The dump carried its own transaction; the import managed it.\n");
                }
                let ghost head = t@;
                let mut i: usize = 0;
                while i < s.errors.len()
                    invariant
                        i <= s.errors@.len(),
                        t@ == head + error_entries(s.errors@.take(i as int)),
                    decreases s.errors.len() - i,
                {
                    let e = &s.errors[i];
                    t.append("line ");
                    t.append(decimal_string(e.line).as_str());
                    t.append(": ");
                    t.append(e.statement.as_str());
                    t.append("\n  ");
                    t.append(e.message.as_str());
                    t.append("\n");
                    proof {
                        assert(s.errors@.take(i + 1).drop_last() =~= s.errors@.take(i as int));
                    }
                    i = i + 1;
                }
                proof {
                    assert(s.errors@.take(s.errors@.len() as int) =~= s.errors@);
                }
                if s.dropped_errors > 0 {
                    t.append("\u{2026}and ");
                    t.append(decimal_string(s.dropped_errors).as_str());
                    t.append(" more errors not listed.\n");
                }
            },
            None => {},
        }
        t
    }
}

/// How one kept error reads under a finished import.
pub open spec fn error_line_text(e: ImportError) -> Seq<char> {
    "Error at line "@ + decimal(e.line as nat) + ": "@ + e.message@
}

/// How the log lists kept errors: each with its line and statement, then
/// its message indented below.
pub open spec fn error_entries(errors: Seq<ImportError>) -> Seq<char>
    decreases errors.len(),
{
    if errors.len() == 0 {
        Seq::empty()
    } else {
        let e = errors.last();
        error_entries(errors.drop_last()) + "line "@ + decimal(e.line as nat) + ": "@ + e.statement@
            + "\n  "@ + e.message@ + "\n"@
    }
}

/// The log of an import, line by line.
pub open spec fn log_text(
    summary: Option<ImportSummary>,
    failure: Option<Seq<char>>,
    path: Seq<char>,
    size: Seq<char>,
    summary_line: Seq<char>,
) -> Seq<char> {
    let head = "Import of "@ + path + " ("@ + size + ")\n"@;
    let failed = match failure {
        Some(f) => head + "Failed: "@ + f + "\n"@,
        None => head,
    };
    match summary {
        Some(s) => {
            let counted = failed + summary_line + "\n"@;
            let managed = if s.dump_transaction {
                counted + "The dump carried its own transaction; the import managed it.\n"@
            } else {
                counted
            };
            let listed = managed + error_entries(s.errors@);
            if s.dropped_errors > 0 {
                listed + "\u{2026}and "@ + decimal(s.dropped_errors as nat) + " more errors not listed.\n"@
            } else {
                listed
            }
        },
        None => failed,
    }
}

/// The warnings the pre-flight shows, in order: the dump's dialect
/// mismatch, how many statements drop or clear data, and that MySQL cannot
/// roll a dump back.
pub open spec fn warnings_text(mismatch: Option<Seq<char>>, destructive: nat, engine: Engine) -> Seq<
    Seq<char>,
> {
    let first = match mismatch {
        Some(m) => seq![m],
        None => Seq::empty(),
    };
    let counted = if destructive > 0 {
        first.push(
            "This dump contains "@ + decimal(destructive) + " statement"@ + (if destructive == 1 {
                Seq::empty()
            } else {
                "s"@
            }) + " that drop or clear data."@,
        )
    } else {
        first
    };
    if engine == Engine::MySql {
        counted.push(
            "MySQL commits DDL itself, so rolling back is not possible; it falls back to stopping."@,
        )
    } else {
        counted
    }
}

/// The pre-flight's warning lines.
pub fn preflight_warnings(mismatch: Option<String>, destructive: u64, engine: Engine) -> (r: Vec<
    String,
>)
    ensures
        crate::text::views(r@) == warnings_text(opt_view(mismatch), destructive as nat, engine),
{
    let ghost m0 = opt_view(mismatch);
    let mut r: Vec<String> = Vec::new();
    match mismatch {
        Some(m) => {
            r.push(m);
        },
        None => {},
    }
    let ghost first = match m0 {
        Some(m) => seq![m],
        None => Seq::<Seq<char>>::empty(),
    };
    assert(crate::text::views(r@) =~= first);
    if destructive > 0 {
        let mut t = String::from_str("This dump contains ");
        t.append(plural(destructive, "statement").as_str());
        t.append(" that drop or clear data.");
        let ghost before = r@;
        r.push(t);
        proof {
            reveal_strlit(" statement");
            reveal_strlit(" ");
            reveal_strlit("statement");
            assert(t@ =~= "This dump contains "@ + decimal(destructive as nat) + " statement"@ + (
            if destructive == 1 {
                Seq::empty()
            } else {
                "s"@
            }) + " that drop or clear data."@);
        }
        assert(crate::text::views(r@) =~= crate::text::views(before).push(t@));
    }
    if engine == Engine::MySql {
        let t = String::from_str(
            "MySQL commits DDL itself, so rolling back is not possible; it falls back to stopping.",
        );
        let ghost before = r@;
        r.push(t);
        assert(crate::text::views(r@) =~= crate::text::views(before).push(t@));
    }
    r
}

/// Why an import cannot start, if it cannot: the pre-flight's own error
/// first; then a read-only connection, named by its safety mode (`mode`,
/// in lower case), since importing would write to it.
pub fn blocked_reason(preflight_error: Option<String>, read_only_mode: Option<&str>) -> (r: Option<
    String,
>)
    ensures
        opt_view(r) == match preflight_error {
            Some(e) => Some(e@),
            None => match read_only_mode {
                Some(mode) => Some(
                    "This connection is "@ + mode@ + " \u{2014} importing would write to it."@,
                ),
                None => None,
            },
        },
{
    match preflight_error {
        Some(e) => Some(e),
        None => match read_only_mode {
            Some(mode) => {
                let mut t = String::from_str("This connection is ");
                t.append(mode);
                t.append(" \u{2014} importing would write to it.");
                Some(t)
            },
            None => None,
        },
    }
}

} // verus!
