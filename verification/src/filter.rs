//! The filter boxes: their text turned into a case-insensitive matcher, and
//! the server variables panel's rows narrowed by it.

use vstd::prelude::*;
use regex::{Regex, RegexBuilder};
use crate::grid::row_view;
use crate::query::{Cell, QueryResult};
use crate::text;
use crate::text::copy_strings;

verus! {

#[verifier::external_type_specification]
#[verifier::external_body]
pub struct ExRegex(Regex);

/// Whether `pattern` compiles as a case-insensitive regex, as the `regex`
/// crate's builder decides it, size limits included.
pub uninterp spec fn compiles(pattern: Seq<char>) -> bool;

/// Whether the case-insensitive regex compiled from `pattern` matches
/// somewhere in `text`.
pub uninterp spec fn matches(pattern: Seq<char>, text: Seq<char>) -> bool;

/// Whether `c` means something in a regex, so it must be escaped to stand
/// for itself.
pub open spec fn is_meta(c: char) -> bool {
    c == '\\' || c == '.' || c == '+' || c == '*' || c == '?' || c == '(' || c == ')' || c == '|'
        || c == '[' || c == ']' || c == '{' || c == '}' || c == '^' || c == '$' || c == '#' || c
        == '&' || c == '-' || c == '~'
}

/// `text` with a backslash before each character that means something in a
/// regex, so it matches itself literally.
pub open spec fn escaped(text: Seq<char>) -> Seq<char>
    decreases text.len(),
{
    if text.len() == 0 {
        Seq::empty()
    } else {
        escaped(text.drop_last()) + if is_meta(text.last()) {
            seq!['\\', text.last()]
        } else {
            seq![text.last()]
        }
    }
}

/// A filter box's text turned into a matcher: the case-insensitive regex it
/// compiled to, and the pattern it was compiled from.
pub struct TextFilter {
    pattern: String,
    regex: Regex,
}

impl View for TextFilter {
    type V = Seq<char>;

    /// The pattern the matcher was compiled from.
    closed spec fn view(&self) -> Seq<char> {
        self.pattern@
    }
}

/// `regex::RegexBuilder`, case-insensitive: a matcher for `pattern` when it
/// compiles. The contract claims that the result is there exactly when the
/// pattern compiles, and that it keeps the pattern it was built from.
#[verifier::external_body]
fn build_case_insensitive(pattern: &str) -> (r: Option<TextFilter>)
    ensures
        r is Some <==> compiles(pattern@),
        r matches Some(f) ==> f@ == pattern@,
{
    match RegexBuilder::new(pattern).case_insensitive(true).build() {
        Ok(regex) => Some(TextFilter { pattern: pattern.to_string(), regex }),
        Err(_) => None,
    }
}

/// `regex::escape`: the contract claims that it puts a backslash before each
/// of the crate's meta characters and leaves every other character as it is.
#[verifier::external_body]
fn regex_escape(text: &str) -> (r: String)
    ensures
        r@ == escaped(text@),
{
    regex::escape(text)
}

/// `Regex::is_match`: the contract claims that it answers whether the
/// matcher's case-insensitive regex matches somewhere in `text`.
#[verifier::external_body]
fn filter_matches(filter: &TextFilter, text: &str) -> (r: bool)
    ensures
        r == matches(filter@, text@),
{
    filter.regex.is_match(text)
}

/// The matcher a filter box's text compiles to.
pub open spec fn compiled(pattern: Seq<char>) -> Option<Seq<char>> {
    if pattern.len() == 0 {
        None
    } else if compiles(pattern) {
        Some(pattern)
    } else if compiles(escaped(pattern)) {
        Some(escaped(pattern))
    } else {
        None
    }
}

/// Turn a filter box's text into a matcher: none for an empty box; the text
/// as a case-insensitive regex; and, while it is still being typed and not
/// yet valid (`user(`), the text matched literally rather than nothing.
pub fn compile(pattern: &str) -> (r: Option<TextFilter>)
    ensures
        match r {
            Some(f) => compiled(pattern@) == Some(f@),
            None => compiled(pattern@) is None,
        },
{
    if pattern.is_empty() {
        return None;
    }
    match build_case_insensitive(pattern) {
        Some(f) => Some(f),
        None => {
            let literal = regex_escape(pattern);
            build_case_insensitive(literal.as_str())
        },
    }
}

/// Whether the sidebar filter lets an object with this label through: every
/// object when there is no filter.
pub open spec fn label_passes(label: Seq<char>, filter: Option<Seq<char>>) -> bool {
    match filter {
        None => true,
        Some(p) => matches(p, label),
    }
}

/// The positions of the labels the filter lets through, in order.
pub open spec fn visible_spec(labels: Seq<Seq<char>>, filter: Option<Seq<char>>) -> Seq<nat>
    decreases labels.len(),
{
    if labels.len() == 0 {
        Seq::empty()
    } else {
        let before = visible_spec(labels.drop_last(), filter);
        if label_passes(labels.last(), filter) {
            before.push((labels.len() - 1) as nat)
        } else {
            before
        }
    }
}

/// The objects the sidebar shows, given each object's label: the positions
/// of those the filter lets through, in sidebar order.
pub fn visible_objects(labels: &Vec<String>, filter: Option<&TextFilter>) -> (r: Vec<usize>)
    ensures
        r@.map_values(|i: usize| i as nat) == visible_spec(text::views(labels@), filter_view(filter)),
{
    let mut r: Vec<usize> = Vec::new();
    let mut i: usize = 0;
    while i < labels.len()
        invariant
            i <= labels@.len(),
            r@.map_values(|k: usize| k as nat) == visible_spec(
                text::views(labels@).take(i as int),
                filter_view(filter),
            ),
        decreases labels.len() - i,
    {
        proof {
            assert(text::views(labels@).take(i + 1).drop_last() =~= text::views(labels@).take(i as int));
        }
        let passes = match filter {
            Some(f) => filter_matches(f, labels[i].as_str()),
            None => true,
        };
        let ghost before = r@;
        if passes {
            r.push(i);
            proof {
                assert(r@.map_values(|k: usize| k as nat) =~= before.map_values(|k: usize| k as nat).push(
                    i as nat,
                ));
            }
        }
        i = i + 1;
    }
    proof {
        assert(text::views(labels@).take(labels@.len() as int) =~= text::views(labels@));
    }
    r
}

/// Whether `filter` lets a row through, by its first cell: every row when
/// there is no filter, otherwise a row whose first cell holds text the
/// filter matches.
pub open spec fn name_passes(row: Seq<Option<Seq<char>>>, filter: Option<Seq<char>>) -> bool {
    match filter {
        None => true,
        Some(p) => row.len() > 0 && match row[0] {
            Some(name) => matches(p, name),
            None => false,
        },
    }
}

/// The pattern a filter was compiled from, if there is one.
pub open spec fn filter_view(filter: Option<&TextFilter>) -> Option<Seq<char>> {
    match filter {
        Some(f) => Some(f@),
        None => None,
    }
}

/// Whether each of `rows` passes the name filter.
pub open spec fn name_flags(rows: Seq<Vec<Cell>>, filter: Option<Seq<char>>) -> Seq<bool> {
    Seq::new(rows.len(), |i: int| name_passes(row_view(rows[i]), filter))
}

/// Where the `changed` flag sits: the last column.
pub open spec fn changed_index(columns: nat) -> int {
    if columns == 0 {
        0
    } else {
        columns - 1
    }
}

/// Whether a row passes the changed-only toggle: any row when it is off, a
/// row whose flag cell reads `yes` when it is on.
pub open spec fn changed_passes(row: Seq<Option<Seq<char>>>, index: int, changed_only: bool) -> bool {
    !changed_only || (0 <= index < row.len() && row[index] == Some("yes"@))
}

/// The rows of `rows` that pass both tests, `names[i]` saying whether row
/// `i` passed the name filter; in their own order.
pub open spec fn kept_rows(
    rows: Seq<Seq<Option<Seq<char>>>>,
    names: Seq<bool>,
    index: int,
    changed_only: bool,
) -> Seq<Seq<Option<Seq<char>>>>
    decreases rows.len(),
{
    if rows.len() == 0 {
        Seq::empty()
    } else {
        let rest = kept_rows(rows.drop_last(), names.drop_last(), index, changed_only);
        if names.last() && changed_passes(rows.last(), index, changed_only) {
            rest.push(rows.last())
        } else {
            rest
        }
    }
}

/// The rows of `all` as text.
pub open spec fn rows_view(rows: Seq<Vec<Cell>>) -> Seq<Seq<Option<Seq<char>>>> {
    rows.map_values(|r: Vec<Cell>| row_view(r))
}

/// Whether a cell reads exactly `yes`.
fn reads_yes(cell: &Cell) -> (r: bool)
    ensures
        r == (text::opt_view(*cell) == Some("yes"@)),
{
    proof {
        reveal_strlit("yes");
    }
    match cell {
        Some(t) => text::chars_eq(&text::chars_of(t.as_str()), &text::chars_of("yes")),
        None => false,
    }
}

/// A fresh copy of a row.
fn copy_row(row: &Vec<Cell>) -> (r: Vec<Cell>)
    ensures
        row_view(r) == row_view(*row),
{
    let mut out: Vec<Cell> = Vec::new();
    let mut i: usize = 0;
    while i < row.len()
        invariant
            i <= row@.len(),
            out@.len() == i,
            forall|k: int| 0 <= k < i ==> text::opt_view(#[trigger] out@[k]) == text::opt_view(row@[k]),
        decreases row@.len() - i,
    {
        out.push(crate::query::copy_cell(&row[i]));
        i = i + 1;
    }
    assert(row_view(out) =~= row_view(*row));
    out
}

/// The server variables `all` holds, narrowed: a row stays when the name
/// filter let it through (`names[i]` for row `i`) and, with `changed_only`,
/// when its last column reads `yes`. The query puts the name first and the
/// flag last on every engine, so those two positions are all this reads.
pub fn keep_variables(all: &QueryResult, names: &Vec<bool>, changed_only: bool) -> (r: QueryResult)
    requires
        names@.len() == all.rows@.len(),
    ensures
        text::views(r.columns@) == text::views(all.columns@),
        text::views(r.column_types@) == text::views(all.column_types@),
        rows_view(r.rows@) == kept_rows(
            rows_view(all.rows@),
            names@,
            changed_index(all.columns@.len()),
            changed_only,
        ),
{
    let index = all.columns.len().saturating_sub(1);
    let ghost all_rows = rows_view(all.rows@);
    let mut rows: Vec<Vec<Cell>> = Vec::new();
    let mut i: usize = 0;
    assert(all_rows.take(0) =~= Seq::<Seq<Option<Seq<char>>>>::empty());
    while i < all.rows.len()
        invariant
            names@.len() == all.rows@.len(),
            all_rows == rows_view(all.rows@),
            index == changed_index(all.columns@.len()),
            i <= all.rows@.len(),
            rows_view(rows@) == kept_rows(
                all_rows.take(i as int),
                names@.take(i as int),
                index as int,
                changed_only,
            ),
        decreases all.rows@.len() - i,
    {
        let row = &all.rows[i];
        let changed = !changed_only || (index < row.len() && reads_yes(&row[index]));
        proof {
            assert(all_rows.take(i + 1).drop_last() =~= all_rows.take(i as int));
            assert(names@.take(i + 1).drop_last() =~= names@.take(i as int));
            assert(all_rows[i as int] == row_view(*row));
            assert(changed == changed_passes(row_view(*row), index as int, changed_only));
        }
        if names[i] && changed {
            let ghost before = rows_view(rows@);
            rows.push(copy_row(row));
            proof {
                assert(rows_view(rows@) =~= before.push(row_view(*row)));
            }
        }
        i = i + 1;
    }
    proof {
        assert(all_rows.take(all.rows@.len() as int) =~= all_rows);
        assert(names@.take(all.rows@.len() as int) =~= names@);
    }
    QueryResult {
        columns: copy_strings(&all.columns),
        column_types: copy_strings(&all.column_types),
        rows,
    }
}

/// The server variables `all` holds, narrowed by the name filter and, with
/// `changed_only`, to the rows flagged as changed.
pub fn filter_variables(all: &QueryResult, filter: Option<&TextFilter>, changed_only: bool) -> (r: QueryResult)
    ensures
        text::views(r.columns@) == text::views(all.columns@),
        text::views(r.column_types@) == text::views(all.column_types@),
        rows_view(r.rows@) == kept_rows(
            rows_view(all.rows@),
            name_flags(all.rows@, filter_view(filter)),
            changed_index(all.columns@.len()),
            changed_only,
        ),
{
    let ghost p = filter_view(filter);
    let mut names: Vec<bool> = Vec::new();
    let mut i: usize = 0;
    while i < all.rows.len()
        invariant
            p == filter_view(filter),
            i <= all.rows@.len(),
            names@.len() == i,
            forall|k: int| 0 <= k < i ==> #[trigger] names@[k] == name_passes(row_view(all.rows@[k]), p),
        decreases all.rows@.len() - i,
    {
        let row = &all.rows[i];
        let pass = match filter {
            None => true,
            Some(f) => row.len() > 0 && match &row[0] {
                Some(name) => filter_matches(f, name.as_str()),
                None => false,
            },
        };
        names.push(pass);
        i = i + 1;
    }
    proof {
        assert(names@ =~= name_flags(all.rows@, p));
    }
    keep_variables(all, &names, changed_only)
}

/// With no name filter and the changed-only toggle off, every row stays, in
/// its own order.
pub proof fn no_filter_keeps_every_row(rows: Seq<Vec<Cell>>, index: int)
    ensures
        kept_rows(rows_view(rows), name_flags(rows, None), index, false) == rows_view(rows),
    decreases rows.len(),
{
    if rows.len() > 0 {
        no_filter_keeps_every_row(rows.drop_last(), index);
        assert(rows_view(rows).drop_last() =~= rows_view(rows.drop_last()));
        assert(name_flags(rows, None).drop_last() =~= name_flags(rows.drop_last(), None));
        assert(rows_view(rows.drop_last()).push(rows_view(rows).last()) =~= rows_view(rows));
    } else {
        assert(rows_view(rows) =~= Seq::<Seq<Option<Seq<char>>>>::empty());
    }
}

/// Every row the two tests keep passed both of them.
pub proof fn kept_rows_pass_both(
    rows: Seq<Seq<Option<Seq<char>>>>,
    names: Seq<bool>,
    index: int,
    changed_only: bool,
    k: int,
)
    requires
        names.len() == rows.len(),
        0 <= k < kept_rows(rows, names, index, changed_only).len(),
    ensures
        exists|i: int|
            0 <= i < rows.len() && names[i] && changed_passes(rows[i], index, changed_only)
                && #[trigger] rows[i] == kept_rows(rows, names, index, changed_only)[k],
    decreases rows.len(),
{
    let rest = kept_rows(rows.drop_last(), names.drop_last(), index, changed_only);
    if k < rest.len() {
        kept_rows_pass_both(rows.drop_last(), names.drop_last(), index, changed_only, k);
        let i = choose|i: int|
            0 <= i < rows.drop_last().len() && names.drop_last()[i] && changed_passes(
                rows.drop_last()[i],
                index,
                changed_only,
            ) && #[trigger] rows.drop_last()[i] == rest[k];
        assert(rows[i] == rows.drop_last()[i]);
        assert(names[i] == names.drop_last()[i]);
    } else {
        let i = rows.len() - 1;
        assert(rows[i] == kept_rows(rows, names, index, changed_only)[k]);
    }
}

} // verus!
