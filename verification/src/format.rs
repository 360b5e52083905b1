//! Laying a single value out for a human to read.
//!
//! The grid holds display strings rather than the values themselves, so this
//! decides how one of them is shown in full (JSON over several lines, a
//! stand-in saying it was never read back) and whether a cell can show it at
//! all or it wants a window of its own.

use vstd::prelude::*;
use crate::query::{Cell, is_binary_type, is_placeholder};
use crate::query;
use crate::text;
use crate::text::{chars_of, space_char, upper_chars};

verus! {

/// What `serde_json` lays `text` out as: `Some` of the value's
/// `to_string_pretty` when `text` parses as a JSON value, `None` when it does
/// not.
pub uninterp spec fn json_layout(text: Seq<char>) -> Option<Seq<char>>;

/// `text` laid out over several lines, if it is JSON at all.
///
/// Trusted: parses `text` with `serde_json::from_str` into a
/// `serde_json::Value` and writes that value back with
/// `serde_json::to_string_pretty` (keys in the order the text had them, as the
/// crate's `preserve_order` feature keeps them); `None` when either step
/// fails. The contract names that result and claims nothing more of it.
#[verifier::external_body]
fn pretty_json(text: &str) -> (r: Option<String>)
    ensures
        text::opt_view(r) == json_layout(text@),
{
    match serde_json::from_str::<serde_json::Value>(text) {
        Ok(value) => serde_json::to_string_pretty(&value).ok(),
        Err(_) => None,
    }
}

/// Whether `s` begins with `prefix`.
pub open spec fn starts_with(s: Seq<char>, prefix: Seq<char>) -> bool {
    prefix.len() <= s.len() && s.take(prefix.len() as int) == prefix
}

/// Whether `s` ends with `suffix`.
pub open spec fn ends_with(s: Seq<char>, suffix: Seq<char>) -> bool {
    suffix.len() <= s.len() && s.skip(s.len() - suffix.len()) == suffix
}

/// Whether `t`, past its leading white space, opens an object or an array.
pub open spec fn looks_like_json(t: Seq<char>) -> bool {
    let start = text::leading_space(t);
    start < t.len() && (t[start as int] == '{' || t[start as int] == '[')
}

/// Whether a value of this type, with this text, is laid out as JSON when it
/// parses as JSON: a column typed as JSON is, even holding a bare string;
/// anything else has to look like JSON; an array type never is.
pub open spec fn json_wanted(t: Seq<char>, data_type: Seq<char>) -> bool {
    let upper = text::upper_seq(data_type);
    !ends_with(upper, "[]"@) && (starts_with(upper, "JSON"@) || looks_like_json(t))
}

/// What is said after a stand-in, so the viewer does not pretend.
pub open spec fn not_read_back() -> Seq<char> {
    "\n\nThis value was not read back from the server, so there is nothing to show here."@
}

/// A cell laid out for the viewer, given what its text lays out as when it is
/// JSON (`layout`).
pub open spec fn laid_out(value: Cell, data_type: Seq<char>, layout: Option<Seq<char>>) -> Seq<
    char,
> {
    match value {
        None => "NULL"@,
        Some(t) => if query::is_description(t@) {
            t@ + not_read_back()
        } else if json_wanted(t@, data_type) && layout is Some {
            layout->0
        } else {
            t@
        },
    }
}

/// A cell laid out for the viewer: JSON indented, a stand-in explained,
/// `NULL` named, everything else as it stands.
pub open spec fn format_value_spec(value: Cell, data_type: Seq<char>) -> Seq<char> {
    match value {
        Some(t) => laid_out(value, data_type, json_layout(t@)),
        None => laid_out(value, data_type, None),
    }
}

/// Whether `s` begins with the characters of `prefix`.
pub fn begins_with(s: &Vec<char>, prefix: &str) -> (r: bool)
    ensures
        r == starts_with(s@, prefix@),
{
    let p = chars_of(prefix);
    if p.len() > s.len() {
        return false;
    }
    let mut i: usize = 0;
    while i < p.len()
        invariant
            p@ == prefix@,
            p.len() <= s.len(),
            i <= p.len(),
            forall|k: int| 0 <= k < i ==> s@[k] == p@[k],
        decreases p.len() - i,
    {
        if s[i] != p[i] {
            assert(s@.take(p.len() as int)[i as int] != p@[i as int]);
            return false;
        }
        i = i + 1;
    }
    assert(s@.take(p.len() as int) =~= p@);
    true
}

/// Whether `s` ends with the characters of `suffix`.
fn finishes_with(s: &Vec<char>, suffix: &str) -> (r: bool)
    ensures
        r == ends_with(s@, suffix@),
{
    let p = chars_of(suffix);
    if p.len() > s.len() {
        return false;
    }
    let start = s.len() - p.len();
    let mut i: usize = 0;
    while i < p.len()
        invariant
            p@ == suffix@,
            start + p.len() == s.len(),
            i <= p.len(),
            forall|k: int| 0 <= k < i ==> s@[start + k] == p@[k],
        decreases p.len() - i,
    {
        if s[start + i] != p[i] {
            assert(s@.skip(start as int)[i as int] != p@[i as int]);
            return false;
        }
        i = i + 1;
    }
    assert(s@.skip(start as int) =~= p@);
    true
}

/// Whether `t`, past its leading white space, opens an object or an array.
fn opens_json(t: &Vec<char>) -> (r: bool)
    ensures
        r == looks_like_json(t@),
{
    let mut i: usize = 0;
    assert(t@.skip(0) =~= t@);
    while i < t.len() && space_char(t[i])
        invariant
            i <= t.len(),
            text::leading_space(t@) == i + text::leading_space(t@.skip(i as int)),
        decreases t.len() - i,
    {
        assert(t@.skip(i as int).drop_first() =~= t@.skip(i + 1));
        i = i + 1;
    }
    assert(text::leading_space(t@.skip(i as int)) == 0);
    i < t.len() && (t[i] == '{' || t[i] == '[')
}

/// Whether a value of this type, with this text, is laid out as JSON when it
/// parses as JSON.
pub fn wants_json(t: &str, data_type: &str) -> (r: bool)
    ensures
        r == json_wanted(t@, data_type@),
{
    let upper = upper_chars(&chars_of(data_type));
    !finishes_with(&upper, "[]") && (begins_with(&upper, "JSON") || opens_json(&chars_of(t)))
}

/// A cell laid out for the viewer, given what its text lays out as when it is
/// JSON: `NULL` named, a stand-in explained, JSON as `layout` has it when
/// the type or the text asks for JSON and `layout` is there, everything else
/// as it stands.
pub fn lay_out(value: &Cell, data_type: &str, layout: Option<String>) -> (r: String)
    ensures
        r@ == laid_out(*value, data_type@, text::opt_view(layout)),
{
    let text = match value {
        None => {
            return String::from_str("NULL");
        },
        Some(t) => t,
    };
    if is_placeholder(value) {
        let mut r = String::from_str(text.as_str());
        r.append("\n\nThis value was not read back from the server, so there is nothing to show here.");
        return r;
    }
    if wants_json(text.as_str(), data_type) {
        if let Some(pretty) = layout {
            return pretty;
        }
    }
    String::from_str(text.as_str())
}

/// Lay a cell out for the viewer: JSON is indented, everything else is shown
/// as it stands. The grid holds display strings rather than the values
/// themselves, so a value the driver could only describe says so instead of
/// pretending.
pub fn format_value(value: &Cell, data_type: &str) -> (r: String)
    ensures
        r@ == format_value_spec(*value, data_type@),
{
    match value {
        None => lay_out(value, data_type, None),
        Some(t) => {
            if !is_placeholder(value) && wants_json(t.as_str(), data_type) {
                lay_out(value, data_type, pretty_json(t.as_str()))
            } else {
                lay_out(value, data_type, None)
            }
        },
    }
}

/// Values longer than this are read in a window rather than a grid cell.
pub const LONG_VALUE: usize = 200;

/// Whether a value wants a window of its own, given what its text lays out
/// as when it is JSON.
pub open spec fn wants_window(value: Cell, data_type: Seq<char>, layout: Option<Seq<char>>) -> bool {
    query::placeholder(value) || query::binary_type(data_type) || match value {
        None => false,
        Some(t) => t@.contains('\n') || t@.len() > LONG_VALUE || ((starts_with(
            text::upper_seq(data_type),
            "JSON"@,
        ) || looks_like_json(t@)) && layout is Some),
    }
}

/// Whether a value wants a window of its own rather than the one-line
/// editor: a stand-in, a binary column, several lines, more than
/// [`LONG_VALUE`] characters, or JSON.
pub open spec fn needs_a_window_spec(value: Cell, data_type: Seq<char>) -> bool {
    match value {
        Some(t) => wants_window(value, data_type, json_layout(t@)),
        None => wants_window(value, data_type, None),
    }
}

/// Whether `t` holds a line break.
fn has_line_break(t: &Vec<char>) -> (r: bool)
    ensures
        r == t@.contains('\n'),
{
    let mut i: usize = 0;
    while i < t.len()
        invariant
            i <= t.len(),
            forall|k: int| 0 <= k < i ==> t@[k] != '\n',
        decreases t.len() - i,
    {
        if t[i] == '\n' {
            assert(t@[i as int] == '\n');
            return true;
        }
        i = i + 1;
    }
    false
}

/// Whether a value wants a window of its own, given what its text lays out
/// as when it is JSON.
pub fn window_wanted(value: &Cell, data_type: &str, layout: Option<String>) -> (r: bool)
    ensures
        r == wants_window(*value, data_type@, text::opt_view(layout)),
{
    if is_placeholder(value) || is_binary_type(data_type) {
        return true;
    }
    match value {
        None => false,
        Some(t) => {
            let v = chars_of(t.as_str());
            let upper = upper_chars(&chars_of(data_type));
            has_line_break(&v) || v.len() > LONG_VALUE || ((begins_with(&upper, "JSON")
                || opens_json(&v)) && layout.is_some())
        },
    }
}

/// Whether a value wants a window of its own rather than the one-line
/// editor: several lines, JSON, something the driver only described, or
/// simply too much text to read through a cell.
pub fn needs_a_window(value: &Cell, data_type: &str) -> (r: bool)
    ensures
        r == needs_a_window_spec(*value, data_type@),
{
    match value {
        None => window_wanted(value, data_type, None),
        Some(t) => {
            if is_placeholder(value) || is_binary_type(data_type) {
                return window_wanted(value, data_type, None);
            }
            let v = chars_of(t.as_str());
            if has_line_break(&v) || v.len() > LONG_VALUE {
                return window_wanted(value, data_type, None);
            }
            let upper = upper_chars(&chars_of(data_type));
            if begins_with(&upper, "JSON") || opens_json(&v) {
                window_wanted(value, data_type, pretty_json(t.as_str()))
            } else {
                window_wanted(value, data_type, None)
            }
        },
    }
}

/// A value that is neither JSON nor a stand-in for one that was never read is
/// shown exactly as it stands.
pub proof fn plain_text_is_left_as_it_is(value: String, data_type: Seq<char>)
    requires
        !json_wanted(value@, data_type),
        !query::is_description(value@),
    ensures
        format_value_spec(Some(value), data_type) == value@,
{
}

/// Whenever the viewer shows a value other than its own text (JSON laid out
/// over several lines, a stand-in explained), the value also wants a window
/// of its own rather than the one-line editor.
pub proof fn laid_out_values_want_a_window(value: String, data_type: Seq<char>)
    requires
        format_value_spec(Some(value), data_type) != value@,
    ensures
        needs_a_window_spec(Some(value), data_type),
{
}

} // verus!
