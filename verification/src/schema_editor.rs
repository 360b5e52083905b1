//! The schema editor's own state: marking rows to drop, the cycle of
//! loading a table's structure, previewing the statements an edit makes,
//! and applying them, and the words and tints its section rows show.
//!
//! A row here carries what the drop toggle reads (its id, whether the
//! server has it, and its drop mark); its text fields are read into the
//! edits that `crate::rebuild::plan` turns into statements.

use vstd::prelude::*;
use crate::rebuild::Change;
use crate::text;
use crate::text::{join, opt_view};

verus! {

/// A row of the columns, indexes, or foreign keys section.
#[derive(Clone, Debug)]
pub struct FormRow<T> {
    /// Which row this is, for the buttons that act on it.
    pub id: usize,
    /// The definition read from the server; `None` for a row added by hand.
    pub original: Option<T>,
    /// Marked to be dropped.
    pub dropped: bool,
}

/// Where the row with `id` first stands in `rows`, if it does.
pub open spec fn row_at<T>(rows: Seq<FormRow<T>>, id: usize) -> Option<int>
    decreases rows.len(),
{
    if rows.len() == 0 {
        None
    } else if rows[0].id == id {
        Some(0)
    } else {
        match row_at(rows.drop_first(), id) {
            Some(i) => Some(i + 1),
            None => None,
        }
    }
}

/// `row_at` finds the first row with the id, and `None` means there is
/// none.
pub proof fn lemma_row_at<T>(rows: Seq<FormRow<T>>, id: usize)
    ensures
        match row_at(rows, id) {
            Some(i) => 0 <= i < rows.len() && rows[i].id == id && forall|j: int|
                0 <= j < i ==> rows[j].id != id,
            None => forall|j: int| 0 <= j < rows.len() ==> rows[j].id != id,
        },
    decreases rows.len(),
{
    if rows.len() > 0 && rows[0].id != id {
        lemma_row_at(rows.drop_first(), id);
        assert forall|j: int| 1 <= j < rows.len() implies rows[j].id == rows.drop_first()[j - 1].id by {}
    }
}

/// The first row with an id is where `row_at` finds it.
pub proof fn lemma_row_at_first<T>(rows: Seq<FormRow<T>>, id: usize, i: int)
    requires
        0 <= i < rows.len(),
        rows[i].id == id,
        forall|j: int| 0 <= j < i ==> rows[j].id != id,
    ensures
        row_at(rows, id) == Some(i),
{
    lemma_row_at(rows, id);
    match row_at(rows, id) {
        Some(k) => {
            if k < i {
                assert(rows[k].id != id);
            }
            if i < k {
                assert(rows[i].id != id);
            }
        },
        None => {
            assert(rows[i].id != id);
        },
    }
}

/// The rows after the drop button of row `id` is pressed: a row the server
/// has has its mark turned over; a row added by hand is taken out, since
/// the server has nothing of it to drop.
pub open spec fn drop_toggled<T>(rows: Seq<FormRow<T>>, id: usize) -> Seq<FormRow<T>> {
    match row_at(rows, id) {
        Some(i) => if rows[i].original is Some {
            rows.update(i, FormRow { dropped: !rows[i].dropped, ..rows[i] })
        } else {
            rows.remove(i)
        },
        None => rows,
    }
}

/// Where the row with `id` first stands in `rows`.
pub fn find_row<T>(rows: &Vec<FormRow<T>>, id: usize) -> (r: Option<usize>)
    ensures
        match r {
            Some(i) => row_at(rows@, id) == Some(i as int),
            None => row_at(rows@, id) is None,
        },
{
    let mut i: usize = 0;
    while i < rows.len()
        invariant
            i <= rows@.len(),
            forall|j: int| 0 <= j < i ==> rows@[j].id != id,
        decreases rows.len() - i,
    {
        if rows[i].id == id {
            proof {
                lemma_row_at_first(rows@, id, i as int);
            }
            return Some(i);
        }
        i = i + 1;
    }
    proof {
        lemma_row_at(rows@, id);
        if row_at(rows@, id) is Some {
            let k = row_at(rows@, id)->0;
            assert(rows@[k].id != id);
        }
    }
    None
}

/// Press the drop button of row `id`.
pub fn toggle_drop<T>(rows: &mut Vec<FormRow<T>>, id: usize)
    ensures
        final(rows)@ == drop_toggled(old(rows)@, id),
{
    proof {
        lemma_row_at(rows@, id);
    }
    match find_row(rows, id) {
        Some(i) => {
            if rows[i].original.is_some() {
                let mut row = rows.remove(i);
                row.dropped = !row.dropped;
                rows.insert(i, row);
                proof {
                    assert(rows@ =~= drop_toggled(old(rows)@, id));
                }
            } else {
                rows.remove(i);
            }
        },
        None => {},
    }
}

/// Pressing the drop button of a row the server has twice leaves the rows
/// as they were.
pub proof fn dropping_twice_restores_a_row<T>(rows: Seq<FormRow<T>>, id: usize)
    requires
        (row_at(rows, id) matches Some(i) && rows[i].original is Some),
    ensures
        drop_toggled(drop_toggled(rows, id), id) == rows,
{
    lemma_row_at(rows, id);
    let i = row_at(rows, id)->0;
    let once = drop_toggled(rows, id);
    assert(once.len() == rows.len());
    assert forall|j: int| 0 <= j < once.len() implies #[trigger] once[j].id == rows[j].id by {}
    lemma_row_at_first(once, id, i);
    assert(drop_toggled(once, id) =~= rows);
}

/// What the editor is doing, and what its footer and preview show.
pub struct EditorState {
    /// The table's structure is being read.
    pub loading: bool,
    /// A previewed change is running.
    pub applying: bool,
    pub error: Option<String>,
    /// A word on how the last apply went.
    pub notice: Option<String>,
    /// The statements shown in the preview, waiting for `Apply`.
    pub pending: Option<Change>,
}

/// How reading the structure, or running a change, ended.
#[derive(Clone, Debug)]
pub enum TaskEnd {
    Finished,
    Failed(String),
    Cancelled,
}

/// The error a reload's end leaves.
pub open spec fn reload_error(end: TaskEnd) -> Option<Seq<char>> {
    match end {
        TaskEnd::Finished => None,
        TaskEnd::Failed(m) => Some(m@),
        TaskEnd::Cancelled => Some("reading the table's structure was cancelled"@),
    }
}

/// The preview's text: the statements, each ended by a semicolon, one per
/// line.
pub open spec fn preview_text(statements: Seq<Seq<char>>) -> Seq<char> {
    join(statements, ";\n"@) + ";"@
}

/// The change left waiting after a preview: none on a grid that cannot be
/// edited (the old one stays), none for a refusal or an empty change,
/// otherwise the change itself.
pub open spec fn pending_after_preview(
    pending: Option<Change>,
    editable: bool,
    plan: Result<Change, String>,
) -> Option<Change> {
    if !editable {
        pending
    } else {
        match plan {
            Ok(change) => if change.spec().1.len() == 0 {
                None
            } else {
                Some(change)
            },
            Err(_) => None,
        }
    }
}

/// What `Apply` runs is what the preview showed: after previewing a change
/// with statements in it, that change is the one left waiting, and so the
/// one `Apply` hands out to run.
pub proof fn apply_runs_what_was_previewed(pending: Option<Change>, change: Change)
    requires
        change.spec().1.len() > 0,
    ensures
        pending_after_preview(pending, true, Ok(change)) == Some(change),
{
}

impl EditorState {
    /// The editor as it opens, before its first read.
    pub fn new() -> (r: Self)
        ensures
            !r.loading && !r.applying && r.error is None && r.notice is None && r.pending is None,
    {
        EditorState { loading: false, applying: false, error: None, notice: None, pending: None }
    }

    /// Unapplied edits, or a preview waiting on `Apply`, would be lost by
    /// closing the tab.
    pub fn is_dirty(&self, has_changes: bool) -> (r: bool)
        ensures
            r == (self.pending is Some || has_changes),
    {
        self.pending.is_some() || has_changes
    }

    /// A read of the structure starts: the error and any waiting preview go;
    /// a notice stays, since the reload it reports on is this one.
    pub fn begin_reload(&mut self)
        ensures
            final(self).loading,
            final(self).error is None,
            final(self).pending is None,
            final(self).applying == old(self).applying,
            final(self).notice == old(self).notice,
    {
        self.loading = true;
        self.error = None;
        self.pending = None;
    }

    /// The connection changed (another database was picked): the notice
    /// and any waiting preview go, and the structure is read again.
    pub fn switch_connection(&mut self)
        ensures
            final(self).loading,
            final(self).error is None,
            final(self).pending is None,
            final(self).notice is None,
            final(self).applying == old(self).applying,
    {
        self.pending = None;
        self.notice = None;
        self.begin_reload();
    }

    /// A read of the structure ended; a failed or cancelled read says so.
    pub fn finish_reload(&mut self, end: TaskEnd)
        ensures
            !final(self).loading,
            final(self).applying == old(self).applying,
            final(self).notice == old(self).notice,
            final(self).pending == old(self).pending,
            opt_view(final(self).error) == match end {
                TaskEnd::Finished => opt_view(old(self).error),
                _ => reload_error(end),
            },
    {
        self.loading = false;
        match end {
            TaskEnd::Finished => {},
            TaskEnd::Failed(m) => {
                self.error = Some(m);
            },
            TaskEnd::Cancelled => {
                self.error = Some(String::from_str("reading the table's structure was cancelled"));
            },
        }
    }

    /// An edit was made: a waiting preview no longer matches it.
    pub fn edited(&mut self)
        ensures
            final(self).pending is None,
            final(self).loading == old(self).loading,
            final(self).applying == old(self).applying,
            final(self).error == old(self).error,
            final(self).notice == old(self).notice,
    {
        self.pending = None;
    }

    /// Show what `plan` made of the edits, or why it made nothing: an empty
    /// change is `nothing has changed`, a refusal is the error. The answer
    /// is the preview's text when there is one. A grid that cannot be
    /// edited previews nothing.
    pub fn preview(&mut self, editable: bool, plan: Result<Change, String>) -> (r: Option<String>)
        ensures
            final(self).pending == pending_after_preview(old(self).pending, editable, plan),
            !editable ==> r is None && final(self).loading == old(self).loading && final(self).applying
                == old(self).applying && final(self).error == old(self).error && final(self).notice
                == old(self).notice && final(self).pending == old(self).pending,
            editable ==> final(self).notice is None && final(self).loading == old(self).loading
                && final(self).applying == old(self).applying && match plan {
                Ok(change) => if change.spec().1.len() == 0 {
                    opt_view(final(self).error) == Some("nothing has changed"@) && final(self).pending is None
                        && r is None
                } else {
                    final(self).error is None && final(self).pending == Some(change) && (r matches Some(
                        text,
                    ) && text@ == preview_text(change.spec().1))
                },
                Err(message) => opt_view(final(self).error) == Some(message@) && final(self).pending is None
                    && r is None,
            },
    {
        if !editable {
            return None;
        }
        self.notice = None;
        match plan {
            Ok(change) => {
                if change.is_empty() {
                    self.error = Some(String::from_str("nothing has changed"));
                    self.pending = None;
                    None
                } else {
                    self.error = None;
                    let mut text = text::join_strings(change.statements(), ";\n");
                    text.append(";");
                    self.pending = Some(change);
                    Some(text)
                }
            },
            Err(message) => {
                self.error = Some(message);
                self.pending = None;
                None
            },
        }
    }

    /// Leave the preview without running it; the edits stay to try again.
    pub fn cancel_preview(&mut self)
        ensures
            final(self).pending is None,
            final(self).loading == old(self).loading,
            final(self).applying == old(self).applying,
            final(self).error == old(self).error,
            final(self).notice == old(self).notice,
    {
        self.pending = None;
    }

    /// `Apply` was pressed: the waiting change is handed out to run, and
    /// the editor shows that it is applying. Nothing happens when no change
    /// waits.
    pub fn begin_apply(&mut self) -> (r: Option<Change>)
        ensures
            r == old(self).pending,
            final(self).pending is None,
            final(self).loading == old(self).loading,
            old(self).pending is Some ==> final(self).applying && final(self).error is None
                && final(self).notice is None,
            old(self).pending is None ==> final(self).applying == old(self).applying
                && final(self).error == old(self).error && final(self).notice == old(self).notice,
    {
        let change = self.pending.take();
        if change.is_some() {
            self.applying = true;
            self.error = None;
            self.notice = None;
        }
        change
    }

    /// The change ended: on success the notice says so and the structure
    /// is read again (the answer is whether to read it); otherwise the
    /// error says what went wrong.
    pub fn finish_apply(&mut self, end: TaskEnd) -> (r: bool)
        ensures
            !final(self).applying,
            r == (end is Finished),
            r ==> opt_view(final(self).notice) == Some("Changes applied"@) && final(self).loading
                && final(self).error is None && final(self).pending is None,
            !r ==> final(self).loading == old(self).loading && final(self).notice == old(self).notice
                && final(self).pending == old(self).pending && opt_view(final(self).error) == Some(
                match end {
                    TaskEnd::Failed(m) => m@,
                    _ => "applying the changes was cancelled"@,
                },
            ),
    {
        self.applying = false;
        match end {
            TaskEnd::Finished => {
                self.notice = Some(String::from_str("Changes applied"));
                self.begin_reload();
                true
            },
            TaskEnd::Failed(m) => {
                self.error = Some(m);
                false
            },
            TaskEnd::Cancelled => {
                self.error = Some(String::from_str("applying the changes was cancelled"));
                false
            },
        }
    }

    /// The footer's message, and whether it is an error: the error first,
    /// then that a change is applying, then that the structure is loading,
    /// then the notice; otherwise nothing.
    pub fn footer(&self) -> (r: (String, bool))
        ensures
            r.1 == self.error is Some,
            r.0@ == match self.error {
                Some(e) => "Error: "@ + e@,
                None => if self.applying {
                    "Applying\u{2026}"@
                } else if self.loading {
                    "Loading\u{2026}"@
                } else {
                    match self.notice {
                        Some(n) => n@,
                        None => Seq::empty(),
                    }
                },
            },
    {
        match &self.error {
            Some(e) => {
                let mut t = String::from_str("Error: ");
                t.append(e.as_str());
                (t, true)
            },
            None => if self.applying {
                (String::from_str("Applying\u{2026}"), false)
            } else if self.loading {
                (String::from_str("Loading\u{2026}"), false)
            } else {
                match &self.notice {
                    Some(n) => (text::copy_string(n), false),
                    None => (String::new(), false),
                }
            },
        }
    }

    /// Whether the footer offers `Preview changes`: on an editable table
    /// with no preview already waiting.
    pub fn offers_preview(&self, editable: bool) -> (r: bool)
        ensures
            r == (editable && self.pending is None),
    {
        editable && self.pending.is_none()
    }

    /// Whether `Preview changes` is disabled: while a change applies, or
    /// when nothing has been edited.
    pub fn preview_disabled(&self, has_changes: bool) -> (r: bool)
        ensures
            r == (self.applying || !has_changes),
    {
        self.applying || !has_changes
    }
}


/// How a section row is tinted: red for a row about to be dropped, blue
/// for one added by hand, green for one with an edit staged on it.
#[derive(Clone, Copy, PartialEq, Eq, Structural, Debug)]
pub enum RowTint {
    Dropped,
    Added,
    Changed,
}

/// The tint a row takes, the strongest state first: dropped, then added,
/// then changed; none for a row as the server has it. (Index and foreign
/// key rows are never `changed`: their definitions are fixed once read.)
pub fn row_tint(dropped: bool, is_new: bool, changed: bool) -> (r: Option<RowTint>)
    ensures
        r == (if dropped {
            Some(RowTint::Dropped)
        } else if is_new {
            Some(RowTint::Added)
        } else if changed {
            Some(RowTint::Changed)
        } else {
            None
        }),
{
    if dropped {
        Some(RowTint::Dropped)
    } else if is_new {
        Some(RowTint::Added)
    } else if changed {
        Some(RowTint::Changed)
    } else {
        None
    }
}

/// The label of a row's drop button: a row the server has is marked and
/// unmarked (`Drop`, `Undrop`); a row added by hand is removed.
pub fn drop_label(existing: bool, dropped: bool) -> (r: &'static str)
    ensures
        r@ == (if !existing {
            "Remove"@
        } else if dropped {
            "Undrop"@
        } else {
            "Drop"@
        }),
{
    if !existing {
        "Remove"
    } else if dropped {
        "Undrop"
    } else {
        "Drop"
    }
}

/// What kind of index an existing index row says it is.
pub fn index_kind(primary_key: bool, unique: bool) -> (r: &'static str)
    ensures
        r@ == (if primary_key {
            "PRIMARY KEY"@
        } else if unique {
            "UNIQUE"@
        } else {
            "INDEX"@
        }),
{
    if primary_key {
        "PRIMARY KEY"
    } else if unique {
        "UNIQUE"
    } else {
        "INDEX"
    }
}

/// The key marker of a column row: `PK` for a primary key column.
pub fn key_marker(is_primary_key: bool) -> (r: &'static str)
    ensures
        r@ == (if is_primary_key {
            "PK"@
        } else {
            ""@
        }),
{
    if is_primary_key {
        "PK"
    } else {
        ""
    }
}

/// How an existing foreign key row reads: its columns, an arrow, then the
/// table it references (schema-qualified when it has a schema) with that
/// table's columns in brackets.
pub open spec fn reference_spec(
    columns: Seq<Seq<char>>,
    schema: Option<Seq<char>>,
    table: Seq<char>,
    referenced: Seq<Seq<char>>,
) -> Seq<char> {
    let target = match schema {
        Some(s) => s + "."@ + table,
        None => table,
    };
    join(columns, ", "@) + " \u{2192} "@ + target + "("@ + join(referenced, ", "@) + ")"@
}

/// How an existing foreign key row reads.
pub fn reference_text(
    columns: &Vec<String>,
    schema: Option<&str>,
    table: &str,
    referenced: &Vec<String>,
) -> (r: String)
    ensures
        r@ == reference_spec(
            text::views(columns@),
            text::opt_str_view(schema),
            table@,
            text::views(referenced@),
        ),
{
    let mut r = text::join_strings(columns, ", ");
    r.append(" \u{2192} ");
    match schema {
        Some(s) => {
            r.append(s);
            r.append(".");
        },
        None => {},
    }
    r.append(table);
    r.append("(");
    r.append(text::join_strings(referenced, ", ").as_str());
    r.append(")");
    r
}

} // verus!
