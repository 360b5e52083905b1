//! Copying out of the grid: the text a copy puts on the clipboard, how a
//! payload too large for it is cut, and the notice that says what went.

use vstd::prelude::*;
use crate::query::{Cell, copy_cell, is_placeholder};
use crate::query;
use crate::text;
use crate::text::{decimal_string, join_strings};
use vstd::string::StringSliceAdditionalSpecFns;

verus! {

/// The rows and cells a copy or an export acts on, with the columns and
/// driver types they were read under.
#[derive(Clone, Debug)]
pub struct Snapshot {
    pub columns: Vec<String>,
    pub types: Vec<String>,
    pub rows: Vec<Vec<Cell>>,
}

/// The most rows one copy puts on the clipboard. A result past this is cut
/// short, and the notice says which part went.
pub const MAX_COPY_ROWS: usize = 100000;

/// The most text, in UTF-8 bytes, one copy puts on the clipboard.
pub const MAX_COPY_BYTES: usize = 52428800;

/// `1 row` / `3 rows`, for a notice.
pub open spec fn count_text(count: nat, one: Seq<char>, many: Seq<char>) -> Seq<char> {
    if count == 1 {
        "1 "@ + one
    } else {
        text::decimal(count) + " "@ + many
    }
}

/// `1 row` / `3 rows`, for a notice.
pub fn count_of(count: usize, one: &str, many: &str) -> (r: String)
    ensures
        r@ == count_text(count as nat, one@, many@),
{
    if count == 1 {
        let mut r = String::from_str("1 ");
        r.append(one);
        r
    } else {
        let mut r = decimal_string(count as u64);
        r.append(" ");
        r.append(many);
        r
    }
}

/// `message`, with how many cells could not be read back when any could not.
pub open spec fn skipped_text(message: Seq<char>, skipped: nat) -> Seq<char> {
    if skipped > 0 {
        message + " ("@ + count_text(skipped, "value"@, "values"@)
            + " not read back, copied as NULL)"@
    } else {
        message
    }
}

/// Add how many cells could not be read back, when any could not.
pub fn with_skipped(message: String, skipped: usize) -> (r: String)
    ensures
        r@ == skipped_text(message@, skipped as nat),
{
    let mut message = message;
    if skipped > 0 {
        message.append(" (");
        message.append(count_of(skipped, "value", "values").as_str());
        message.append(" not read back, copied as NULL)");
    }
    message
}

/// The UTF-8 bytes of `t`.
pub open spec fn bytes_of(t: Seq<char>) -> Seq<u8> {
    vstd::utf8::encode_utf8(t)
}

/// Whether `kept` is `full` kept under [`MAX_COPY_BYTES`]: `full` itself
/// when it fits (`capped` false), otherwise (`capped` true) its longest
/// prefix that fits and ends between two characters.
pub open spec fn fits(full: Seq<char>, kept: Seq<char>, capped: bool) -> bool {
    &&& capped == (bytes_of(full).len() > MAX_COPY_BYTES)
    &&& !capped ==> kept == full
    &&& capped ==> exists|end: int|
        0 <= end <= MAX_COPY_BYTES && bytes_of(kept) == bytes_of(full).take(end)
            && vstd::utf8::is_char_boundary(bytes_of(full), end) && forall|e: int|
            end < e <= MAX_COPY_BYTES ==> !vstd::utf8::is_char_boundary(#[trigger] bytes_of(full), e)
}

/// Keep a payload under [`MAX_COPY_BYTES`], on a character boundary: the
/// text itself when it fits, otherwise its longest prefix that fits and ends
/// between two characters, and whether it was cut.
pub fn cap_bytes(text: String) -> (r: (String, bool))
    requires
        bytes_of(text@).len() <= usize::MAX,
    ensures
        fits(text@, r.0@, r.1),
{
    let s = text.as_str();
    if s.len() <= MAX_COPY_BYTES {
        return (text, false);
    }
    proof {
        vstd::utf8::encode_utf8_valid_utf8(s@);
    }
    let mut end: usize = MAX_COPY_BYTES;
    while !s.is_char_boundary(end)
        invariant
            end <= MAX_COPY_BYTES,
            MAX_COPY_BYTES < s.spec_bytes().len(),
            vstd::utf8::valid_utf8(s.spec_bytes()),
            forall|e: int|
                end < e <= MAX_COPY_BYTES ==> !vstd::utf8::is_char_boundary(
                    #[trigger] s.spec_bytes(),
                    e,
                ),
        decreases end,
    {
        assert(end != 0);
        end = end - 1;
    }
    let (head, _) = s.split_at(end);
    let r = head.to_owned();
    assert(bytes_of(r@) == bytes_of(text@).take(end as int));
    (r, true)
}

/// The single column of a snapshot taken of one column, as cells: each row's
/// first cell, `NULL` for a row without one.
pub open spec fn first_cells(rows: Seq<Vec<Cell>>) -> Seq<Option<Seq<char>>> {
    rows.map_values(
        |row: Vec<Cell>|
            if row@.len() > 0 {
                text::opt_view(row@[0])
            } else {
                None
            },
    )
}

/// The text of each cell, in order.
pub open spec fn cell_views(cells: Seq<Cell>) -> Seq<Option<Seq<char>>> {
    cells.map_values(|c: Cell| text::opt_view(c))
}

/// The single column of a snapshot taken of one column, as cells.
pub fn column_cells(snapshot: &Snapshot) -> (r: Vec<Cell>)
    ensures
        cell_views(r@) == first_cells(snapshot.rows@),
{
    let mut out: Vec<Cell> = Vec::new();
    let mut i: usize = 0;
    while i < snapshot.rows.len()
        invariant
            i <= snapshot.rows.len(),
            out@.len() == i,
            forall|k: int|
                0 <= k < i ==> text::opt_view(#[trigger] out@[k]) == first_cells(
                    snapshot.rows@,
                )[k],
        decreases snapshot.rows.len() - i,
    {
        let row = &snapshot.rows[i];
        if row.len() > 0 {
            out.push(copy_cell(&row[0]));
        } else {
            out.push(None);
        }
        i = i + 1;
    }
    assert(cell_views(out@) =~= first_cells(snapshot.rows@));
    out
}

/// A cell as a copy writes it: its text, or nothing for `NULL`.
pub open spec fn cell_text(cell: Option<Seq<char>>) -> Seq<char> {
    match cell {
        Some(t) => t,
        None => Seq::empty(),
    }
}

/// Rows as a spreadsheet reads them back: one line each, cells separated by
/// tabs, a `NULL` as nothing.
pub open spec fn tsv_spec(rows: Seq<Vec<Cell>>) -> Seq<char> {
    text::join(
        rows.map_values(
            |row: Vec<Cell>|
                text::join(cell_views(row@).map_values(|c: Option<Seq<char>>| cell_text(c)), "\t"@),
        ),
        "\n"@,
    )
}

/// Rows as a spreadsheet reads them back.
pub fn tsv_rows(rows: &Vec<Vec<Cell>>) -> (r: String)
    ensures
        r@ == tsv_spec(rows@),
{
    let mut lines: Vec<String> = Vec::new();
    let mut i: usize = 0;
    while i < rows.len()
        invariant
            i <= rows.len(),
            lines@.len() == i,
            forall|k: int|
                0 <= k < i ==> (#[trigger] lines@[k])@ == text::join(
                    cell_views(rows@[k]@).map_values(|c: Option<Seq<char>>| cell_text(c)),
                    "\t"@,
                ),
        decreases rows.len() - i,
    {
        let row = &rows[i];
        let mut cells: Vec<String> = Vec::new();
        let mut j: usize = 0;
        while j < row.len()
            invariant
                j <= row.len(),
                cells@.len() == j,
                forall|k: int|
                    0 <= k < j ==> (#[trigger] cells@[k])@ == cell_text(text::opt_view(row@[k])),
            decreases row.len() - j,
        {
            match &row[j] {
                Some(t) => cells.push(t.clone()),
                None => cells.push(String::new()),
            }
            j = j + 1;
        }
        assert(text::views(cells@) =~= cell_views(row@).map_values(
            |c: Option<Seq<char>>| cell_text(c),
        ));
        lines.push(join_strings(&cells, "\t"));
        i = i + 1;
    }
    assert(text::views(lines@) =~= rows@.map_values(
        |row: Vec<Cell>|
            text::join(cell_views(row@).map_values(|c: Option<Seq<char>>| cell_text(c)), "\t"@),
    ));
    join_strings(&lines, "\n")
}

/// The notice for a copy of picked rows: cut short by rows, cut short by
/// size, or whole.
pub open spec fn rows_notice_spec(rows: nat, total: nat, capped: bool) -> Seq<char> {
    if rows < total {
        "Copied first "@ + text::decimal(rows) + " of "@ + text::decimal(total) + " rows"@
    } else if capped {
        "Copied the first 50 MB"@
    } else {
        "Copied "@ + count_text(rows, "row"@, "rows"@)
    }
}

/// The notice for a copy of picked rows.
pub fn rows_notice(rows: usize, total: usize, capped: bool) -> (r: String)
    ensures
        r@ == rows_notice_spec(rows as nat, total as nat, capped),
{
    if rows < total {
        let mut r = String::from_str("Copied first ");
        r.append(decimal_string(rows as u64).as_str());
        r.append(" of ");
        r.append(decimal_string(total as u64).as_str());
        r.append(" rows");
        r
    } else if capped {
        String::from_str("Copied the first 50 MB")
    } else {
        let mut r = String::from_str("Copied ");
        r.append(count_of(rows, "row", "rows").as_str());
        r
    }
}

/// The notice for a copy laid out in a named format: the notice a copy of
/// rows gives, and the format it was laid out in.
pub open spec fn format_notice_spec(rows: nat, total: nat, capped: bool, label: Seq<char>) -> Seq<
    char,
> {
    rows_notice_spec(rows, total, capped) + " as "@ + label
}

/// The notice for a copy laid out in a named format.
pub fn format_notice(rows: usize, total: usize, capped: bool, label: &str) -> (r: String)
    ensures
        r@ == format_notice_spec(rows as nat, total as nat, capped, label@),
{
    let mut r = rows_notice(rows, total, capped);
    r.append(" as ");
    r.append(label);
    r
}

/// How many of `cells` a copy as an `IN` list carries: those that hold a
/// value that was read back.
pub open spec fn listed_count(cells: Seq<Cell>) -> nat
    decreases cells.len(),
{
    if cells.len() == 0 {
        0
    } else {
        listed_count(cells.drop_last()) + if cells.last() is Some && !query::placeholder(
            cells.last(),
        ) {
            1nat
        } else {
            0nat
        }
    }
}

/// How many of `cells` a copy as an `IN` list carries.
pub fn count_listed(cells: &Vec<Cell>) -> (r: usize)
    ensures
        r == listed_count(cells@),
{
    let mut n: usize = 0;
    let mut i: usize = 0;
    assert(cells@.take(0) =~= Seq::<Cell>::empty());
    while i < cells.len()
        invariant
            i <= cells.len(),
            n == listed_count(cells@.take(i as int)),
            n <= i,
        decreases cells.len() - i,
    {
        assert(cells@.take(i + 1).drop_last() =~= cells@.take(i as int));
        assert(cells@.take(i + 1).last() == cells@[i as int]);
        if cells[i].is_some() && !is_placeholder(&cells[i]) {
            n = n + 1;
        }
        i = i + 1;
    }
    assert(cells@.take(cells.len() as int) =~= cells@);
    n
}

/// The notice for a copy of a column as an `IN` list.
pub open spec fn in_list_notice_spec(copied: nat, skipped: nat) -> Seq<char> {
    if copied == 0 {
        "No values to copy"@
    } else {
        skipped_text(
            "Copied "@ + count_text(copied, "value"@, "values"@) + " as an IN list"@,
            skipped,
        )
    }
}

/// The notice for a copy of a column as an `IN` list.
pub fn in_list_notice(copied: usize, skipped: usize) -> (r: String)
    ensures
        r@ == in_list_notice_spec(copied as nat, skipped as nat),
{
    if copied == 0 {
        return String::from_str("No values to copy");
    }
    let mut message = String::from_str("Copied ");
    message.append(count_of(copied, "value", "values").as_str());
    message.append(" as an IN list");
    with_skipped(message, skipped)
}

/// What copying rows puts on the clipboard, and the notice that says what
/// went: the rows as tab-separated lines, kept under [`MAX_COPY_BYTES`];
/// `total` is how many rows the copy was asked for before any were left
/// out.
pub fn copy_rows(rows: &Vec<Vec<Cell>>, total: usize) -> (r: (String, String))
    requires
        bytes_of(tsv_spec(rows@)).len() <= usize::MAX,
    ensures
        exists|capped: bool|
            fits(tsv_spec(rows@), r.0@, capped) && r.1@ == rows_notice_spec(
                rows@.len(),
                total as nat,
                capped,
            ),
{
    let text = tsv_rows(rows);
    let (text, capped) = cap_bytes(text);
    let message = rows_notice(rows.len(), total, capped);
    (text, message)
}

} // verus!
