//! A query's result as the grid holds it: display strings, `NULL` as absent,
//! and a stand-in text for a value the driver could only describe.

use vstd::prelude::*;
use crate::text;
use crate::text::{chars_of, decimal_string, upper_chars};

verus! {

/// One value of a result: its display text, or `None` for SQL `NULL`.
pub type Cell = Option<String>;

/// The rows a query returned, with the names and driver types of its
/// columns.
#[derive(Clone, Debug)]
pub struct QueryResult {
    pub columns: Vec<String>,
    pub column_types: Vec<String>,
    pub rows: Vec<Vec<Cell>>,
}

impl Default for QueryResult {
    fn default() -> (r: Self)
        ensures
            r.columns@.len() == 0,
            r.column_types@.len() == 0,
            r.rows@.len() == 0,
    {
        QueryResult { columns: Vec::new(), column_types: Vec::new(), rows: Vec::new() }
    }
}

/// A character a stand-in's description is written with.
pub open spec fn is_description_char(c: char) -> bool {
    text::is_alnum(c) || c == ' '
}

/// Whether `t` is the stand-in the driver writes for a value it could only
/// describe: a description in angle brackets, such as `<3 bytes>` or `<XML>`.
pub open spec fn is_description(t: Seq<char>) -> bool {
    t.len() > 2 && t[0] == '<' && t.last() == '>' && forall|i: int|
        1 <= i < t.len() - 1 ==> is_description_char(#[trigger] t[i])
}

/// Whether a cell holds a stand-in rather than the value itself.
pub open spec fn placeholder(cell: Cell) -> bool {
    match cell {
        Some(t) => is_description(t@),
        None => false,
    }
}

/// A fresh copy of `cell`.
pub fn copy_cell(cell: &Cell) -> (r: Cell)
    ensures
        text::opt_view(r) == text::opt_view(*cell),
{
    match cell {
        Some(t) => Some(t.clone()),
        None => None,
    }
}

/// Whether an optional text is a stand-in rather than a value.
pub open spec fn is_description_opt(t: Option<Seq<char>>) -> bool {
    match t {
        Some(t) => is_description(t),
        None => false,
    }
}

/// Whether `t` is the stand-in the driver writes for a value it could only
/// describe.
pub fn describes(t: &str) -> (r: bool)
    ensures
        r == is_description(t@),
{
    let v = chars_of(t);
    let n = v.len();
    if n <= 2 || v[0] != '<' || v[n - 1] != '>' {
        return false;
    }
    let mut i: usize = 1;
    while i < n - 1
        invariant
            v@ == t@,
            n == v.len(),
            n > 2,
            1 <= i <= n - 1,
            forall|j: int| 1 <= j < i ==> is_description_char(#[trigger] v@[j]),
        decreases n - i,
    {
        let c = v[i];
        if !(('a' <= c && c <= 'z') || ('A' <= c && c <= 'Z') || ('0' <= c && c <= '9') || c
            == ' ') {
            assert(!is_description_char(v@[i as int]));
            return false;
        }
        i = i + 1;
    }
    true
}

/// Whether `value` holds a stand-in the driver wrote for a value it could
/// not read back, rather than the value itself.
pub fn is_placeholder(value: &Cell) -> (r: bool)
    ensures
        r == placeholder(*value),
{
    match value {
        None => false,
        Some(t) => describes(t.as_str()),
    }
}

/// Whether a cell's text, when there is one, is a stand-in.
pub fn is_description_ref(value: Option<&String>) -> (r: bool)
    ensures
        r == is_description_opt(match value {
            Some(s) => Some(s@),
            None => None,
        }),
{
    match value {
        None => false,
        Some(t) => describes(t.as_str()),
    }
}

/// Whether `haystack` holds `needle` as a run of consecutive characters.
pub open spec fn contains_text(haystack: Seq<char>, needle: Seq<char>) -> bool {
    exists|i: int|
        0 <= i && i + needle.len() <= haystack.len() && #[trigger] haystack.subrange(
            i,
            i + needle.len(),
        ) == needle
}

/// Whether `haystack` holds `needle` as a run of consecutive characters.
pub fn has_text(haystack: &Vec<char>, needle: &Vec<char>) -> (r: bool)
    ensures
        r == contains_text(haystack@, needle@),
{
    let n = needle.len();
    if n > haystack.len() {
        return false;
    }
    if n == 0 {
        assert(haystack@.subrange(0, 0 + needle@.len() as int) =~= needle@);
        return true;
    }
    let mut i: usize = 0;
    while i <= haystack.len() - n
        invariant
            n == needle.len(),
            0 < n <= haystack.len(),
            i <= haystack.len() - n + 1,
            forall|j: int|
                0 <= j < i ==> #[trigger] haystack@.subrange(j, j + n as int) != needle@,
        decreases haystack.len() - i,
    {
        let mut k: usize = 0;
        let mut same = true;
        while k < n
            invariant
                n == needle.len(),
                i + n <= haystack.len(),
                k <= n,
                same ==> forall|m: int| 0 <= m < k ==> haystack@[i + m] == needle@[m],
                !same ==> haystack@.subrange(i as int, i + n as int) != needle@,
            decreases n - k,
        {
            if same && haystack[i + k] != needle[k] {
                same = false;
                assert(haystack@.subrange(i as int, i + n as int)[k as int] != needle@[k as int]);
            }
            k = k + 1;
        }
        if same {
            assert(haystack@.subrange(i as int, i + n as int) =~= needle@);
            return true;
        }
        i = i + 1;
    }
    false
}

/// Whether a driver type holds bytes rather than text.
pub open spec fn binary_type(data_type: Seq<char>) -> bool {
    let upper = text::upper_seq(data_type);
    contains_text(upper, "BLOB"@) || contains_text(upper, "BYTEA"@) || contains_text(
        upper,
        "BINARY"@,
    )
}

/// Whether a column of this driver type holds bytes rather than text: a
/// `BLOB`, `BYTEA`, `BINARY` or `VARBINARY` in any case.
pub fn is_binary_type(data_type: &str) -> (r: bool)
    ensures
        r == binary_type(data_type@),
{
    let upper = upper_chars(&chars_of(data_type));
    has_text(&upper, &chars_of("BLOB")) || has_text(&upper, &chars_of("BYTEA")) || has_text(
        &upper,
        &chars_of("BINARY"),
    )
}

/// The stand-in for `count` bytes that were not read back.
pub open spec fn blob_text(count: nat) -> Seq<char> {
    if count == 1 {
        "<1 byte>"@
    } else {
        "<"@ + text::decimal(count) + " bytes>"@
    }
}

/// The cell a binary value is shown as: a stand-in saying how many bytes it
/// holds.
pub fn blob(bytes: &[u8]) -> (r: Cell)
    ensures
        text::opt_view(r) == Some(blob_text(bytes@.len())),
{
    if bytes.len() == 1 {
        return Some(String::from_str("<1 byte>"));
    }
    let mut t = String::from_str("<");
    t.append(decimal_string(bytes.len() as u64).as_str());
    t.append(" bytes>");
    Some(t)
}

} // verus!
