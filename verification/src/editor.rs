//! The query editor's decisions: which text a run sends, whether a request
//! is made at all, and what the editor's buttons say.
//!
//! Finding the statement the caret is in is the statement splitter's work;
//! the editor is handed its answer and decides what to do with it.

use vstd::prelude::*;
use crate::text::{blank, is_blank, opt_view};

verus! {

/// What the editor asks its session to do.
#[derive(Clone, Debug)]
pub enum EditorRequest {
    /// Run one statement, or a selection, verbatim.
    Run(String),
    /// Run the whole buffer, statement by statement.
    RunScript(String),
    /// Show a statement's plan; `analyze` also runs it for actual times.
    Explain { sql: String, analyze: bool },
}

/// The text a run sends: the selection, taken as written, when it holds more
/// than white space; otherwise the statement the caret is in, if there is
/// one.
pub open spec fn to_run(selected: Seq<char>, at_cursor: Option<Seq<char>>) -> Option<Seq<char>> {
    if !blank(selected) {
        Some(selected)
    } else {
        at_cursor
    }
}

/// The one statement a run should send: the selection when it holds more
/// than white space (a fragment or several statements, run verbatim), else
/// the statement the caret is in.
pub fn statement_to_run(selected: &str, at_cursor: Option<String>) -> (r: Option<String>)
    ensures
        opt_view(r) == to_run(selected@, opt_view(at_cursor)),
{
    if !is_blank(selected) {
        Some(String::from_str(selected))
    } else {
        at_cursor
    }
}

/// What `Run` asks for: nothing while a run is in flight or when there is
/// no statement to send, else that statement.
pub fn run_request(running: bool, selected: &str, at_cursor: Option<String>) -> (r: Option<
    EditorRequest,
>)
    ensures
        running ==> r is None,
        !running ==> match to_run(selected@, opt_view(at_cursor)) {
            Some(sql) => r matches Some(EditorRequest::Run(t)) && t@ == sql,
            None => r is None,
        },
{
    if running {
        return None;
    }
    match statement_to_run(selected, at_cursor) {
        Some(sql) => Some(EditorRequest::Run(sql)),
        None => None,
    }
}

/// What `Run script` asks for: the whole buffer, unless a run is in flight
/// or the buffer holds nothing but white space.
pub fn script_request(running: bool, buffer: &str) -> (r: Option<EditorRequest>)
    ensures
        running || blank(buffer@) ==> r is None,
        !running && !blank(buffer@) ==> (r matches Some(EditorRequest::RunScript(t)) && t@
            == buffer@),
{
    if running || is_blank(buffer) {
        return None;
    }
    Some(EditorRequest::RunScript(String::from_str(buffer)))
}

/// What `Explain` (or, with `analyze`, `Explain analyze`) asks for: the plan
/// of the statement a run would send, unless a run is in flight or there is
/// no statement.
pub fn explain_request(running: bool, analyze: bool, selected: &str, at_cursor: Option<String>) -> (r:
    Option<EditorRequest>)
    ensures
        running ==> r is None,
        !running ==> match to_run(selected@, opt_view(at_cursor)) {
            Some(sql) => r matches Some(EditorRequest::Explain { sql: t, analyze: a }) && t@ == sql
                && a == analyze,
            None => r is None,
        },
{
    if running {
        return None;
    }
    match statement_to_run(selected, at_cursor) {
        Some(sql) => Some(EditorRequest::Explain { sql, analyze }),
        None => None,
    }
}

/// Whether the analyze button is disabled: while a run is in flight, and
/// for a statement that changes data, since analyzing runs it.
pub fn analyze_disabled(running: bool, writes: bool) -> (r: bool)
    ensures
        r == (running || writes),
{
    running || writes
}

/// The run button's label.
pub fn run_label(running: bool) -> (r: &'static str)
    ensures
        running ==> r@ == "Running\u{2026}"@,
        !running ==> r@ == "Run"@,
{
    if running {
        "Running\u{2026}"
    } else {
        "Run"
    }
}

/// What the analyze button's tooltip says, which is also why it is
/// disabled for a write.
pub fn analyze_tooltip(writes: bool) -> (r: &'static str)
    ensures
        writes ==> r@ == "Analyze runs the query; this statement changes data"@,
        !writes ==> r@ == "Explain the statement and run it for actual times"@,
{
    if writes {
        "Analyze runs the query; this statement changes data"
    } else {
        "Explain the statement and run it for actual times"
    }
}


/// Whether a tab opened with `sql` runs it straight away: when asked to
/// (as the sidebar does to open a table) and there is something to run.
pub fn runs_when_opened(run: bool, sql: &str) -> (r: bool)
    ensures
        r == (run && !blank(sql@)),
{
    run && !is_blank(sql)
}

} // verus!
