//! The smaller panels: how the process list, server variables, and query
//! digest load and say where they are, ending server connections from the
//! process list, the import dialog's counts and notes, and a connection's
//! tag chip.

use vstd::prelude::*;
use crate::clipboard::Snapshot;
use crate::query::Cell;
use crate::text;
use crate::text::{copy_string, decimal_string, opt_view};

verus! {

/// The ids in the first column of the picked rows, in order; a row whose id
/// is `NULL` has nothing to end and is left out.
pub open spec fn ids_of(rows: Seq<Vec<Cell>>) -> Seq<Seq<char>>
    decreases rows.len(),
{
    if rows.len() == 0 {
        Seq::empty()
    } else {
        let rest = ids_of(rows.drop_last());
        let row = rows.last();
        if row@.len() > 0 && row@[0] is Some {
            rest.push(row@[0]->0@)
        } else {
            rest
        }
    }
}

/// The process ids of the picked rows, for ending those connections.
pub fn kill_ids(picked: &Snapshot) -> (r: Vec<String>)
    ensures
        text::views(r@) == ids_of(picked.rows@),
{
    let mut out: Vec<String> = Vec::new();
    let mut i: usize = 0;
    while i < picked.rows.len()
        invariant
            i <= picked.rows@.len(),
            text::views(out@) == ids_of(picked.rows@.take(i as int)),
        decreases picked.rows@.len() - i,
    {
        proof {
            assert(picked.rows@.take(i + 1).drop_last() =~= picked.rows@.take(i as int));
        }
        let row = &picked.rows[i];
        if row.len() > 0 {
            match &row[0] {
                Some(id) => {
                    let ghost before = text::views(out@);
                    out.push(copy_string(id));
                    proof {
                        assert(text::views(out@) =~= before.push(id@));
                    }
                },
                None => {},
            }
        }
        i = i + 1;
    }
    proof {
        assert(picked.rows@.take(picked.rows@.len() as int) =~= picked.rows@);
    }
    out
}

/// The question asked before ending `count` connections.
pub fn kill_title(count: usize) -> (r: String)
    ensures
        r@ == (if count == 1 {
            "End this connection?"@
        } else {
            "End "@ + text::decimal(count as nat) + " connections?"@
        }),
{
    if count == 1 {
        return String::from_str("End this connection?");
    }
    let mut r = String::from_str("End ");
    r.append(decimal_string(count as u64).as_str());
    r.append(" connections?");
    r
}

/// What ending `count` connections reports once `failed` of them could not
/// be ended.
pub open spec fn kill_notice_text(count: nat, failed: nat) -> Seq<char> {
    if failed == 0 {
        "Ended "@ + text::decimal(count) + " connection"@ + (if count == 1 {
            Seq::empty()
        } else {
            "s"@
        })
    } else {
        "Ended "@ + text::decimal((count - failed) as nat) + ", "@ + text::decimal(failed)
            + " failed"@
    }
}

/// What ending `count` connections reports once `failed` of them could not
/// be ended.
pub fn kill_notice(count: usize, failed: usize) -> (r: String)
    requires
        failed <= count,
    ensures
        r@ == kill_notice_text(count as nat, failed as nat),
{
    let mut r = String::from_str("Ended ");
    if failed == 0 {
        r.append(decimal_string(count as u64).as_str());
        r.append(" connection");
        if count != 1 {
            r.append("s");
        }
    } else {
        r.append(decimal_string((count - failed) as u64).as_str());
        r.append(", ");
        r.append(decimal_string(failed as u64).as_str());
        r.append(" failed");
    }
    r
}

/// `1 statement` / `3 statements`.
pub fn plural(count: u64, noun: &str) -> (r: String)
    ensures
        r@ == text::decimal(count as nat) + " "@ + noun@ + (if count == 1 {
            Seq::empty()
        } else {
            "s"@
        }),
{
    let mut r = decimal_string(count);
    r.append(" ");
    r.append(noun);
    if count != 1 {
        r.append("s");
    }
    r
}

/// What an import's summary adds under its counts: that the dump's own
/// transaction was managed, and that MySQL, which cannot roll a dump back,
/// stopped at the first error; nothing when neither happened.
pub open spec fn import_notes_spec(dump_transaction: bool, mysql_rollback_fallback: bool) -> Option<
    Seq<char>,
> {
    let managed = "The dump carried its own BEGIN/COMMIT; the import managed them."@;
    let stopped = "MySQL cannot roll a dump back, so the run stopped at the first error."@;
    if dump_transaction && mysql_rollback_fallback {
        Some(managed + " "@ + stopped)
    } else if dump_transaction {
        Some(managed)
    } else if mysql_rollback_fallback {
        Some(stopped)
    } else {
        None
    }
}

/// What an import's summary adds under its counts.
pub fn import_notes(dump_transaction: bool, mysql_rollback_fallback: bool) -> (r: Option<String>)
    ensures
        text::opt_view(r) == import_notes_spec(dump_transaction, mysql_rollback_fallback),
{
    let managed = "The dump carried its own BEGIN/COMMIT; the import managed them.";
    let stopped = "MySQL cannot roll a dump back, so the run stopped at the first error.";
    if dump_transaction && mysql_rollback_fallback {
        let mut r = String::from_str(managed);
        r.append(" ");
        r.append(stopped);
        Some(r)
    } else if dump_transaction {
        Some(String::from_str(managed))
    } else if mysql_rollback_fallback {
        Some(String::from_str(stopped))
    } else {
        None
    }
}

/// A colour a connection can be marked with.
#[derive(Debug, Clone, Copy, PartialEq, Eq, Structural)]
pub enum TagColor {
    Red,
    Orange,
    Yellow,
    Green,
    Teal,
    Blue,
    Purple,
    Pink,
    Gray,
}

/// The colour's own name.
pub open spec fn color_name(color: TagColor) -> Seq<char> {
    match color {
        TagColor::Red => "Red"@,
        TagColor::Orange => "Orange"@,
        TagColor::Yellow => "Yellow"@,
        TagColor::Green => "Green"@,
        TagColor::Teal => "Teal"@,
        TagColor::Blue => "Blue"@,
        TagColor::Purple => "Purple"@,
        TagColor::Pink => "Pink"@,
        TagColor::Gray => "Gray"@,
    }
}

impl TagColor {
    /// The colour's own name, for a chip that has no tag text.
    pub fn label(self) -> (r: &'static str)
        ensures
            r@ == color_name(self),
    {
        match self {
            TagColor::Red => "Red",
            TagColor::Orange => "Orange",
            TagColor::Yellow => "Yellow",
            TagColor::Green => "Green",
            TagColor::Teal => "Teal",
            TagColor::Blue => "Blue",
            TagColor::Purple => "Purple",
            TagColor::Pink => "Pink",
            TagColor::Gray => "Gray",
        }
    }
}

/// The text a tag chip carries: the tag, or the colour's own name when only
/// a colour was chosen, so the colour is never the only cue; no chip when
/// there is neither.
pub fn tag_text(tag: Option<&str>, color: Option<TagColor>) -> (r: Option<String>)
    ensures
        text::opt_view(r) == match tag {
            Some(t) if t@.len() > 0 => Some(t@),
            _ => match color {
                Some(c) => Some(color_name(c)),
                None => None,
            },
        },
{
    match tag {
        Some(t) => {
            if !t.is_empty() {
                return Some(String::from_str(t));
            }
        },
        None => {},
    }
    match color {
        Some(c) => Some(String::from_str(c.label())),
        None => None,
    }
}


/// How a panel's read of the server ended.
#[derive(Clone, Debug)]
pub enum LoadEnd {
    /// The rows came back.
    Loaded,
    /// The server cannot give them, for this reason (the query digest on a
    /// server without one).
    Unavailable(String),
    /// The read failed, with this message.
    Failed(String),
    /// The read was given up on.
    Cancelled,
}

/// Where a panel that reads from the server stands.
pub struct Loader {
    pub loading: bool,
    pub error: Option<String>,
    /// A word on the last action, such as ending connections.
    pub notice: Option<String>,
    /// Why the server cannot give what the panel shows.
    pub unavailable: Option<String>,
}

/// The error a read that ended as `end` leaves, for a panel showing `what`.
pub open spec fn load_error(end: LoadEnd, what: Seq<char>) -> Option<Seq<char>> {
    match end {
        LoadEnd::Failed(m) => Some(m@),
        LoadEnd::Cancelled => Some("loading the "@ + what + " was cancelled"@),
        _ => None,
    }
}

impl Loader {
    /// A panel that has read nothing yet.
    pub fn new() -> (r: Self)
        ensures
            !r.loading && r.error is None && r.notice is None && r.unavailable is None,
    {
        Loader { loading: false, error: None, notice: None, unavailable: None }
    }

    /// A read starts: what the last one said is cleared.
    pub fn begin(&mut self)
        ensures
            final(self).loading && final(self).error is None && final(self).notice is None
                && final(self).unavailable is None,
    {
        self.loading = true;
        self.error = None;
        self.notice = None;
        self.unavailable = None;
    }

    /// A read of `what` (such as `process list`) ended. The answer is
    /// whether it brought rows to show; a panel whose server cannot give
    /// them shows an empty grid and says why.
    pub fn finish(&mut self, end: LoadEnd, what: &str) -> (r: bool)
        ensures
            !final(self).loading,
            r == (end is Loaded),
            opt_view(final(self).error) == match end {
                LoadEnd::Failed(_) => load_error(end, what@),
                LoadEnd::Cancelled => load_error(end, what@),
                _ => opt_view(old(self).error),
            },
            opt_view(final(self).unavailable) == match end {
                LoadEnd::Unavailable(reason) => Some(reason@),
                _ => opt_view(old(self).unavailable),
            },
            final(self).notice == old(self).notice,
    {
        self.loading = false;
        match end {
            LoadEnd::Loaded => true,
            LoadEnd::Unavailable(reason) => {
                self.unavailable = Some(reason);
                false
            },
            LoadEnd::Failed(m) => {
                self.error = Some(m);
                false
            },
            LoadEnd::Cancelled => {
                let mut m = String::from_str("loading the ");
                m.append(what);
                m.append(" was cancelled");
                self.error = Some(m);
                false
            },
        }
    }

    /// Ending `count` connections finished with `failed` of them still
    /// running (all of them when the work was given up on): the notice is
    /// set to say so, and the list is read again. The read clears every
    /// notice as it starts, this one included, so the toolbar goes on to
    /// say it is loading and then nothing.
    pub fn connections_ended(&mut self, count: usize, failed: Option<usize>)
        requires
            failed matches Some(f) ==> f <= count,
        ensures
            final(self).loading && final(self).error is None && final(self).unavailable is None,
            final(self).notice is None,
    {
        let failed = match failed {
            Some(f) => f,
            None => count,
        };
        self.notice = Some(kill_notice(count, failed));
        self.begin();
    }

    /// What the process list's toolbar says: that it is loading, or the
    /// last notice, or nothing.
    pub fn status_text(&self) -> (r: String)
        ensures
            r@ == if self.loading {
                "Loading\u{2026}"@
            } else {
                match self.notice {
                    Some(n) => n@,
                    None => Seq::empty(),
                }
            },
    {
        if self.loading {
            String::from_str("Loading\u{2026}")
        } else {
            match &self.notice {
                Some(n) => copy_string(n),
                None => String::new(),
            }
        }
    }
}

} // verus!
