//! The console: a read-only record of every statement a connection has sent
//! to the server, laid out as a result the grid already knows how to show.

use vstd::prelude::*;
use crate::query::{Cell, QueryResult};
use crate::text;
use crate::text::{copy_string, decimal_string};

verus! {

/// Who sent a statement: the user's own run, or the app's own reads and
/// writes.
#[derive(Debug, Clone, Copy, PartialEq, Eq, Structural)]
pub enum QuerySource {
    User,
    Internal,
}

/// How a statement ended.
#[derive(Debug, Clone, PartialEq, Eq)]
pub enum QueryOutcome {
    /// It returned this many rows.
    Rows(u64),
    /// It changed this many rows.
    Affected(u64),
    /// It ran, with nothing to count.
    Ran,
    /// It failed with this message.
    Error(String),
}

/// One statement in a connection's log.
#[derive(Debug, Clone)]
pub struct LoggedQuery {
    pub sql: String,
    pub source: QuerySource,
    pub outcome: QueryOutcome,
    /// How long it took, in milliseconds.
    pub elapsed_ms: u64,
    /// When it was sent, in milliseconds since the Unix epoch.
    pub at_ms: i64,
}

/// What the source column says.
pub open spec fn source_text(source: QuerySource) -> Seq<char> {
    match source {
        QuerySource::User => "User"@,
        QuerySource::Internal => "Internal"@,
    }
}

/// `s` when `count` is not one, for a plural.
pub open spec fn plural_s(count: nat) -> Seq<char> {
    if count == 1 {
        Seq::empty()
    } else {
        "s"@
    }
}

/// What the result column says.
pub open spec fn outcome_text(outcome: QueryOutcome) -> Seq<char> {
    match outcome {
        QueryOutcome::Rows(n) => text::decimal(n as nat) + " row"@ + plural_s(n as nat),
        QueryOutcome::Affected(n) => text::decimal(n as nat) + " row"@ + plural_s(n as nat)
            + " affected"@,
        QueryOutcome::Ran => "ran"@,
        QueryOutcome::Error(m) => "Error: "@ + m@,
    }
}

/// What the source column says.
pub fn source_label(source: QuerySource) -> (r: &'static str)
    ensures
        r@ == source_text(source),
{
    match source {
        QuerySource::User => "User",
        QuerySource::Internal => "Internal",
    }
}

/// What the result column says: a count of rows read or changed, `ran`, or
/// the error.
pub fn outcome_label(outcome: &QueryOutcome) -> (r: String)
    ensures
        r@ == outcome_text(*outcome),
{
    match outcome {
        QueryOutcome::Rows(n) => {
            let mut r = decimal_string(*n);
            r.append(" row");
            if *n != 1 {
                r.append("s");
            }
            r
        },
        QueryOutcome::Affected(n) => {
            let mut r = decimal_string(*n);
            r.append(" row");
            if *n != 1 {
                r.append("s");
            }
            r.append(" affected");
            r
        },
        QueryOutcome::Ran => String::from_str("ran"),
        QueryOutcome::Error(m) => {
            let mut r = String::from_str("Error: ");
            r.append(m.as_str());
            r
        },
    }
}

/// Whether `chrono` can represent the instant `at_ms` milliseconds after the
/// Unix epoch: what `DateTime::from_timestamp_millis` answers `Some` for,
/// the instants from the start of 1 January of year -262143 to the end of
/// 31 December 262142 (proleptic Gregorian, UTC), `chrono`'s date range.
pub open spec fn representable_instant(at_ms: int) -> bool {
    -8_334_601_228_800_000 <= at_ms <= 8_210_266_876_799_999
}

/// Whether `c` is an ASCII digit.
pub open spec fn is_digit(c: char) -> bool {
    '0' <= c && c <= '9'
}

/// The value of the digit `c`.
pub open spec fn digit_value(c: char) -> int {
    c as int - '0' as int
}

/// The value of the two digits of `t` at `i` and `i + 1`.
pub open spec fn two_digits(t: Seq<char>, i: int) -> int {
    10 * digit_value(t[i]) + digit_value(t[i + 1])
}

/// Whether `t` is a clock time written `HH:MM:SS.mmm`: hours below 24,
/// minutes below 60, seconds up to 60 (a leap second), and the three
/// digits of `millis` after the point.
pub open spec fn clock_text(t: Seq<char>, millis: int) -> bool {
    &&& t.len() == 12
    &&& forall|i: int|
        0 <= i < 12 && i != 2 && i != 5 && i != 8 ==> #[trigger] is_digit(t[i])
    &&& t[2] == ':' && t[5] == ':' && t[8] == '.'
    &&& two_digits(t, 0) < 24
    &&& two_digits(t, 3) < 60
    &&& two_digits(t, 6) <= 60
    &&& 100 * digit_value(t[9]) + two_digits(t, 10) == millis
}

/// `chrono`'s local time: the clock time, to the millisecond, of `at_ms`
/// milliseconds after the Unix epoch, in this machine's time zone, written
/// `%H:%M:%S%.3f`; `None` when `chrono` cannot represent that instant. The
/// contract claims the shape of that text and its milliseconds, which are
/// `at_ms`'s own (time-zone offsets are whole seconds); which hour, minute
/// and second it shows rests on the machine's time zone and is left unsaid.
#[verifier::external_body]
fn local_time(at_ms: i64) -> (r: Option<String>)
    ensures
        r is Some <==> representable_instant(at_ms as int),
        r matches Some(t) ==> clock_text(t@, at_ms as int % 1000),
{
    match chrono::DateTime::from_timestamp_millis(at_ms) {
        Some(at) => Some(at.with_timezone(&chrono::Local).format("%H:%M:%S%.3f").to_string()),
        None => None,
    }
}

/// The clock time a log entry was sent at, `HH:MM:SS.mmm` in this machine's
/// time zone; empty for an instant too far off to show.
pub fn format_time(at_ms: i64) -> (r: String)
    ensures
        representable_instant(at_ms as int) ==> clock_text(r@, at_ms as int % 1000),
        !representable_instant(at_ms as int) ==> r@.len() == 0,
{
    match local_time(at_ms) {
        Some(t) => t,
        None => String::new(),
    }
}

/// The console's column headers.
pub open spec fn log_columns() -> Seq<Seq<char>> {
    seq!["Time"@, "Source"@, "Ms"@, "SQL"@, "Result"@]
}

/// The row a log entry is shown as, its time given.
pub open spec fn entry_row(entry: LoggedQuery, time: Seq<char>) -> Seq<Option<Seq<char>>> {
    seq![
        Some(time),
        Some(source_text(entry.source)),
        Some(text::decimal(entry.elapsed_ms as nat)),
        Some(entry.sql@),
        Some(outcome_text(entry.outcome)),
    ]
}

/// Whether `r` is the log laid out newest entry first, row `k` showing
/// entry `n - 1 - k` with the time `times` gives it.
pub open spec fn lays_out_log(r: QueryResult, log: Seq<LoggedQuery>, times: Seq<Seq<char>>) -> bool {
    &&& text::views(r.columns@) == log_columns()
    &&& text::views(r.column_types@) == seq!["TEXT"@, "TEXT"@, "TEXT"@, "TEXT"@, "TEXT"@]
    &&& r.rows@.len() == log.len()
    &&& forall|k: int|
        0 <= k < log.len() ==> crate::grid::row_view(#[trigger] r.rows@[k]) == entry_row(
            log[log.len() - 1 - k],
            times[log.len() - 1 - k],
        )
}

/// A string for each of `texts`.
fn strings_of(texts: &[&str]) -> (r: Vec<String>)
    ensures
        r@.len() == texts@.len(),
        forall|i: int| 0 <= i < texts@.len() ==> (#[trigger] r@[i])@ == texts@[i]@,
{
    let mut out: Vec<String> = Vec::new();
    let mut i: usize = 0;
    while i < texts.len()
        invariant
            i <= texts@.len(),
            out@.len() == i,
            forall|k: int| 0 <= k < i ==> (#[trigger] out@[k])@ == texts@[k]@,
        decreases texts@.len() - i,
    {
        out.push(String::from_str(texts[i]));
        i = i + 1;
    }
    out
}

/// The log laid out as a read-only result, newest entry first so the most
/// recent activity needs no scrolling; `times[i]` is the time shown for
/// `log[i]`.
pub fn lay_out_log(log: &Vec<LoggedQuery>, times: &Vec<String>) -> (r: QueryResult)
    requires
        times@.len() == log@.len(),
    ensures
        lays_out_log(r, log@, text::views(times@)),
{
    let columns = strings_of(&["Time", "Source", "Ms", "SQL", "Result"]);
    let column_types = strings_of(&["TEXT", "TEXT", "TEXT", "TEXT", "TEXT"]);
    let n = log.len();
    let mut rows: Vec<Vec<Cell>> = Vec::new();
    let mut k: usize = 0;
    while k < n
        invariant
            n == log@.len(),
            times@.len() == n,
            k <= n,
            rows@.len() == k,
            forall|j: int|
                0 <= j < k ==> crate::grid::row_view(#[trigger] rows@[j]) == entry_row(
                    log@[n - 1 - j],
                    times@[n - 1 - j]@,
                ),
        decreases n - k,
    {
        let entry = &log[n - 1 - k];
        let mut row: Vec<Cell> = Vec::new();
        row.push(Some(copy_string(&times[n - 1 - k])));
        row.push(Some(String::from_str(source_label(entry.source))));
        row.push(Some(decimal_string(entry.elapsed_ms)));
        row.push(Some(copy_string(&entry.sql)));
        row.push(Some(outcome_label(&entry.outcome)));
        proof {
            assert(crate::grid::row_view(row) =~= entry_row(*entry, times@[n - 1 - k]@));
        }
        rows.push(row);
        k = k + 1;
    }
    proof {
        reveal_strlit("Time");
        reveal_strlit("Source");
        reveal_strlit("Ms");
        reveal_strlit("SQL");
        reveal_strlit("Result");
        reveal_strlit("TEXT");
        assert(text::views(columns@) =~= log_columns());
        assert(text::views(column_types@) =~= seq!["TEXT"@, "TEXT"@, "TEXT"@, "TEXT"@, "TEXT"@]);
    }
    QueryResult { columns, column_types, rows }
}

/// Whether `t` is what [`format_time`] shows for `at_ms`: the clock time
/// `HH:MM:SS.mmm` with `at_ms`'s own milliseconds when `chrono` can
/// represent the instant, nothing when it cannot.
pub open spec fn time_shown(t: Seq<char>, at_ms: i64) -> bool {
    if representable_instant(at_ms as int) {
        clock_text(t, at_ms as int % 1000)
    } else {
        t.len() == 0
    }
}

/// The log laid out as a read-only result, newest entry first, each entry's
/// time read on this machine's clock face: row `k` shows entry `n - 1 - k`,
/// its Time cell that entry's clock time.
pub fn as_result(log: &Vec<LoggedQuery>) -> (r: QueryResult)
    ensures
        exists|times: Seq<Seq<char>>|
            times.len() == log@.len() && #[trigger] lays_out_log(r, log@, times) && forall|i: int|
                0 <= i < log@.len() ==> time_shown(#[trigger] times[i], log@[i].at_ms),
        forall|k: int|
            0 <= k < log@.len() ==> (crate::grid::row_view(#[trigger] r.rows@[k])[0] matches Some(t)
                && time_shown(t, log@[log@.len() - 1 - k].at_ms)),
{
    let mut times: Vec<String> = Vec::new();
    let mut i: usize = 0;
    while i < log.len()
        invariant
            i <= log@.len(),
            times@.len() == i,
            forall|j: int| 0 <= j < i ==> time_shown((#[trigger] times@[j])@, log@[j].at_ms),
        decreases log@.len() - i,
    {
        times.push(format_time(log[i].at_ms));
        i = i + 1;
    }
    let r = lay_out_log(log, &times);
    let ghost tv = text::views(times@);
    proof {
        assert forall|i: int| 0 <= i < log@.len() implies time_shown(#[trigger] tv[i], log@[i].at_ms) by {
            assert(tv[i] == times@[i]@);
        }
        assert forall|k: int| 0 <= k < log@.len() implies (crate::grid::row_view(
            #[trigger] r.rows@[k],
        )[0] matches Some(t) && time_shown(t, log@[log@.len() - 1 - k].at_ms)) by {
            let n = log@.len();
            assert(crate::grid::row_view(r.rows@[k]) == entry_row(log@[n - 1 - k], tv[n - 1 - k]));
            assert(time_shown(tv[n - 1 - k], log@[n - 1 - k].at_ms));
        }
    }
    r
}

} // verus!
