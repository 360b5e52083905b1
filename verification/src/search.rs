//! The schema search dialog's own decisions. The ranking of catalogue
//! entries is done elsewhere; the dialog narrows the query with the kind
//! chips the user switched on, sorts the ranked hits under their headings,
//! writes each row's detail line, and says what the list holds.

use vstd::prelude::*;
use vstd::string::StrSliceExecFns;
use crate::clipboard::{count_of, count_text};
use crate::text::{decimal, decimal_string, join, join_strings, opt_view, views};

verus! {

/// What a catalogue entry is.
#[derive(Clone, Copy, PartialEq, Eq, Structural, Debug)]
pub enum CatalogKind {
    Table,
    View,
    Column,
    Index,
    Routine,
    Trigger,
}

/// How many headings the result list has.
pub const HEADINGS: usize = 5;

/// The heading a kind is listed under, counted from the top: tables and
/// views share the first, then columns, indexes, routines and triggers.
pub open spec fn heading_of(kind: CatalogKind) -> nat {
    match kind {
        CatalogKind::Table => 0,
        CatalogKind::View => 0,
        CatalogKind::Column => 1,
        CatalogKind::Index => 2,
        CatalogKind::Routine => 3,
        CatalogKind::Trigger => 4,
    }
}

/// The heading `kind` is listed under.
pub fn heading(kind: CatalogKind) -> (r: usize)
    ensures
        r == heading_of(kind),
        r < HEADINGS,
{
    match kind {
        CatalogKind::Table => 0,
        CatalogKind::View => 0,
        CatalogKind::Column => 1,
        CatalogKind::Index => 2,
        CatalogKind::Routine => 3,
        CatalogKind::Trigger => 4,
    }
}

/// Whether no kind occurs twice in `kinds`.
pub open spec fn distinct(kinds: Seq<CatalogKind>) -> bool {
    forall|i: int, j: int| 0 <= i < j < kinds.len() ==> kinds[i] != kinds[j]
}

/// Where `kind` first occurs in `kinds`, if it does.
fn position(kinds: &Vec<CatalogKind>, kind: CatalogKind) -> (r: Option<usize>)
    ensures
        match r {
            Some(i) => i < kinds@.len() && kinds@[i as int] == kind && forall|j: int|
                0 <= j < i ==> kinds@[j] != kind,
            None => !kinds@.contains(kind),
        },
{
    let mut i: usize = 0;
    while i < kinds.len()
        invariant
            i <= kinds@.len(),
            forall|j: int| 0 <= j < i ==> kinds@[j] != kind,
        decreases kinds.len() - i,
    {
        if kinds[i] == kind {
            return Some(i);
        }
        i = i + 1;
    }
    None
}

/// Where `kind` first occurs in `kinds` (meaningful when it occurs).
pub open spec fn first_index(kinds: Seq<CatalogKind>, kind: CatalogKind) -> int {
    choose|i: int| 0 <= i < kinds.len() && kinds[i] == kind && forall|j: int| 0 <= j < i ==> kinds[j] != kind
}

/// The chips after switching `kind`: taken out where it was on, added at
/// the end where it was off.
pub open spec fn toggled(kinds: Seq<CatalogKind>, kind: CatalogKind) -> Seq<CatalogKind> {
    if kinds.contains(kind) {
        kinds.remove(first_index(kinds, kind))
    } else {
        kinds.push(kind)
    }
}

/// Switch a kind chip: a kind that was on is taken out, one that was off is
/// added at the end. The others keep their order.
pub fn toggle_kind(kinds: &mut Vec<CatalogKind>, kind: CatalogKind)
    ensures
        final(kinds)@ == toggled(old(kinds)@, kind),
{
    match position(kinds, kind) {
        Some(i) => {
            proof {
                let f = first_index(old(kinds)@, kind);
                assert(0 <= f < old(kinds)@.len() && old(kinds)@[f] == kind && forall|j: int|
                    0 <= j < f ==> old(kinds)@[j] != kind);
                assert(f == i as int) by {
                    if f < i {
                        assert(old(kinds)@[f] != kind);
                    }
                    if i < f {
                        assert(old(kinds)@[i as int] != kind);
                    }
                }
            }
            kinds.remove(i);
        },
        None => {
            kinds.push(kind);
        },
    }
}

/// With no kind on twice, switching `kind` turns exactly that chip over:
/// `kind` is on afterwards just when it was off, every other kind is as it
/// was, and still no kind is on twice.
pub proof fn toggling_turns_one_chip_over(kinds: Seq<CatalogKind>, kind: CatalogKind)
    requires
        distinct(kinds),
    ensures
        toggled(kinds, kind).contains(kind) == !kinds.contains(kind),
        forall|other: CatalogKind|
            other != kind ==> toggled(kinds, kind).contains(other) == kinds.contains(other),
        distinct(toggled(kinds, kind)),
{
    let t = toggled(kinds, kind);
    if kinds.contains(kind) {
        let i = first_index(kinds, kind);
        assert(0 <= i < kinds.len() && kinds[i] == kind && forall|j: int| 0 <= j < i ==> kinds[j] != kind);
        assert(t == kinds.remove(i));
        assert forall|j: int| 0 <= j < t.len() implies t[j] == (if j < i { kinds[j] } else { kinds[j + 1] }) by {}
        assert(!t.contains(kind)) by {
            if t.contains(kind) {
                let k = choose|k: int| 0 <= k < t.len() && t[k] == kind;
                if k < i {
                    assert(kinds[k] == kinds[i]);
                } else {
                    assert(kinds[k + 1] == kinds[i]);
                }
            }
        }
        assert forall|other: CatalogKind| other != kind implies t.contains(other) == kinds.contains(other) by {
            if kinds.contains(other) {
                let k = choose|k: int| 0 <= k < kinds.len() && kinds[k] == other;
                if k < i {
                    assert(t[k] == other);
                } else {
                    assert(k != i);
                    assert(t[k - 1] == other);
                }
            }
            if t.contains(other) {
                let k = choose|k: int| 0 <= k < t.len() && t[k] == other;
                if k < i {
                    assert(kinds[k] == other);
                } else {
                    assert(kinds[k + 1] == other);
                }
            }
        }
        assert forall|a: int, b: int| 0 <= a < b < t.len() implies t[a] != t[b] by {
            let a0 = if a < i { a } else { a + 1 };
            let b0 = if b < i { b } else { b + 1 };
            assert(a0 < b0);
            assert(kinds[a0] != kinds[b0]);
        }
    } else {
        assert(t == kinds.push(kind));
        assert(t[kinds.len() as int] == kind);
        assert forall|other: CatalogKind| other != kind implies t.contains(other) == kinds.contains(other) by {
            if kinds.contains(other) {
                let k = choose|k: int| 0 <= k < kinds.len() && kinds[k] == other;
                assert(t[k] == other);
            }
            if t.contains(other) {
                let k = choose|k: int| 0 <= k < t.len() && t[k] == other;
                assert(kinds[k] == other);
            }
        }
        assert forall|a: int, b: int| 0 <= a < b < t.len() implies t[a] != t[b] by {
            if b == kinds.len() {
                assert(kinds[a] != kind);
            }
        }
    }
}

/// Switching the same chip twice leaves the same kinds switched on, none
/// twice.
pub proof fn toggling_twice_restores_the_chips(kinds: Seq<CatalogKind>, kind: CatalogKind)
    requires
        distinct(kinds),
    ensures
        toggled(toggled(kinds, kind), kind).to_set() == kinds.to_set(),
        distinct(toggled(toggled(kinds, kind), kind)),
{
    let once = toggled(kinds, kind);
    let twice = toggled(once, kind);
    toggling_turns_one_chip_over(kinds, kind);
    toggling_turns_one_chip_over(once, kind);
    assert forall|x: CatalogKind| #[trigger] twice.to_set().contains(x) == kinds.to_set().contains(x) by {
        if x != kind {
            assert(twice.contains(x) == once.contains(x));
            assert(once.contains(x) == kinds.contains(x));
        }
    }
    assert(twice.to_set() =~= kinds.to_set());
}

/// The kinds a search is narrowed to: those the typed query names, then each
/// switched-on chip the query does not name yet, in chip order.
pub open spec fn narrowed(query: Seq<CatalogKind>, chips: Seq<CatalogKind>) -> Seq<CatalogKind>
    decreases chips.len(),
{
    if chips.len() == 0 {
        query
    } else {
        let before = narrowed(query, chips.drop_last());
        if before.contains(chips.last()) {
            before
        } else {
            before.push(chips.last())
        }
    }
}

/// The query's own kinds with the chips' kinds added, none twice over.
pub fn narrow_kinds(query: Vec<CatalogKind>, chips: &Vec<CatalogKind>) -> (r: Vec<CatalogKind>)
    ensures
        r@ == narrowed(query@, chips@),
{
    let mut r = query;
    let ghost q = r@;
    let mut i: usize = 0;
    while i < chips.len()
        invariant
            i <= chips@.len(),
            r@ == narrowed(q, chips@.take(i as int)),
        decreases chips.len() - i,
    {
        let kind = chips[i];
        proof {
            assert(chips@.take(i + 1).drop_last() =~= chips@.take(i as int));
        }
        match position(&r, kind) {
            Some(_) => {},
            None => {
                r.push(kind);
            },
        }
        i = i + 1;
    }
    assert(chips@.take(chips@.len() as int) =~= chips@);
    r
}

/// The positions, among `kinds`, of the hits listed under heading `h`, in
/// rank order.
pub open spec fn under(kinds: Seq<CatalogKind>, h: nat) -> Seq<nat>
    decreases kinds.len(),
{
    if kinds.len() == 0 {
        Seq::empty()
    } else {
        let before = under(kinds.drop_last(), h);
        if heading_of(kinds.last()) == h {
            before.push((kinds.len() - 1) as nat)
        } else {
            before
        }
    }
}

/// The sections of the result list for headings `0..count`: each heading
/// that has a hit, with the positions of its hits in rank order.
pub open spec fn sections(kinds: Seq<CatalogKind>, count: nat) -> Seq<(nat, Seq<nat>)>
    decreases count,
{
    if count == 0 {
        Seq::empty()
    } else {
        let before = sections(kinds, (count - 1) as nat);
        let hits = under(kinds, (count - 1) as nat);
        if hits.len() > 0 {
            before.push(((count - 1) as nat, hits))
        } else {
            before
        }
    }
}

/// The view of one built section.
pub open spec fn section_view(s: (usize, Vec<usize>)) -> (nat, Seq<nat>) {
    (s.0 as nat, s.1@.map_values(|p: usize| p as nat))
}

/// The positions of the hits under heading `h`.
fn hits_under(kinds: &Vec<CatalogKind>, h: usize) -> (r: Vec<usize>)
    ensures
        r@.map_values(|p: usize| p as nat) == under(kinds@, h as nat),
{
    let mut r: Vec<usize> = Vec::new();
    let mut i: usize = 0;
    while i < kinds.len()
        invariant
            i <= kinds@.len(),
            r@.map_values(|p: usize| p as nat) == under(kinds@.take(i as int), h as nat),
        decreases kinds.len() - i,
    {
        proof {
            assert(kinds@.take(i + 1).drop_last() =~= kinds@.take(i as int));
        }
        let ghost before = r@;
        if heading(kinds[i]) == h {
            r.push(i);
            proof {
                assert(r@.map_values(|p: usize| p as nat) =~= before.map_values(|p: usize| p as nat).push(
                    i as nat,
                ));
            }
        }
        i = i + 1;
    }
    assert(kinds@.take(kinds@.len() as int) =~= kinds@);
    r
}

/// The result list's sections, given the kind of each ranked hit: one per
/// heading that has a hit, top heading first, each with the positions of
/// its hits in rank order.
pub fn group_hits(kinds: &Vec<CatalogKind>) -> (r: Vec<(usize, Vec<usize>)>)
    ensures
        r@.map_values(|s: (usize, Vec<usize>)| section_view(s)) == sections(kinds@, HEADINGS as nat),
{
    let mut r: Vec<(usize, Vec<usize>)> = Vec::new();
    let mut h: usize = 0;
    while h < HEADINGS
        invariant
            h <= HEADINGS,
            r@.map_values(|s: (usize, Vec<usize>)| section_view(s)) == sections(kinds@, h as nat),
        decreases HEADINGS - h,
    {
        let hits = hits_under(kinds, h);
        let ghost before = r@;
        if hits.len() > 0 {
            r.push((h, hits));
            proof {
                assert(r@.map_values(|s: (usize, Vec<usize>)| section_view(s)) =~= before.map_values(
                    |s: (usize, Vec<usize>)| section_view(s),
                ).push((h as nat, under(kinds@, h as nat))));
            }
        }
        h = h + 1;
    }
    r
}

/// A result row's detail line: the owner (such as the table a column is in),
/// then the entry's own detail, with a dot between when there are both.
pub open spec fn meta_text(owner: Option<Seq<char>>, detail: Seq<char>) -> Seq<char> {
    let base = match owner {
        Some(o) => o,
        None => Seq::empty(),
    };
    if detail.len() == 0 {
        base
    } else if base.len() == 0 {
        detail
    } else {
        base + " \u{b7} "@ + detail
    }
}

/// The detail line of a result row.
pub fn row_meta(owner: Option<String>, detail: &str) -> (r: String)
    ensures
        r@ == meta_text(opt_view(owner), detail@),
{
    let mut meta = match owner {
        Some(o) => o,
        None => String::new(),
    };
    if detail.unicode_len() == 0 {
        return meta;
    }
    if meta.as_str().unicode_len() == 0 {
        return String::from_str(detail);
    }
    meta.append(" \u{b7} ");
    meta.append(detail);
    meta
}

/// What the empty list says, and whether it is an error: the error when the
/// catalogue could not be read, `Loading schema…` until it has entries,
/// else that nothing matched.
pub open spec fn empty_text(has_entries: bool, loading: bool, error: Option<Seq<char>>) -> (
    Seq<char>,
    bool,
) {
    match error {
        Some(e) => ("Error: "@ + e, true),
        None => if loading || !has_entries {
            ("Loading schema\u{2026}"@, false)
        } else {
            ("No matches"@, false)
        },
    }
}

/// What the empty result list says.
pub fn empty_state(has_entries: bool, loading: bool, error: Option<&str>) -> (r: (String, bool))
    ensures
        (r.0@, r.1) == empty_text(has_entries, loading, crate::text::opt_str_view(error)),
{
    match error {
        Some(e) => {
            let mut t = String::from_str("Error: ");
            t.append(e);
            (t, true)
        },
        None => if loading || !has_entries {
            (String::from_str("Loading schema\u{2026}"), false)
        } else {
            (String::from_str("No matches"), false)
        },
    }
}

/// The pieces of the line under the list: the error (the search then falls
/// back to names), how many matched, the cap that hid some of them, and the
/// catalogue's own cap when it was cut short.
pub open spec fn notice_parts(
    matches: nat,
    cap: nat,
    entries: nat,
    truncated: Option<nat>,
    error: Option<Seq<char>>,
) -> Seq<Seq<char>> {
    let first = match error {
        Some(e) => seq!["Error: "@ + e + " \u{2014} showing names only"@],
        None => Seq::empty(),
    };
    let counted = first.push(count_text(matches, "match"@, "matches"@));
    let capped = if matches > cap {
        counted.push("showing the first "@ + decimal(cap))
    } else {
        counted
    };
    match truncated {
        Some(total) => capped.push(
            "Showing first "@ + decimal(entries) + " of "@ + decimal(total) + " entries."@,
        ),
        None => capped,
    }
}

/// The line under the result list, and whether it reports an error.
/// `cap` is how many hits the list shows; `entries` is how many catalogue
/// entries were read, and `truncated` the catalogue's full size when the
/// read stopped short of it.
pub fn notice(
    matches: usize,
    cap: usize,
    entries: usize,
    truncated: Option<usize>,
    error: Option<&str>,
) -> (r: (String, bool))
    ensures
        r.0@ == join(
            notice_parts(
                matches as nat,
                cap as nat,
                entries as nat,
                match truncated {
                    Some(t) => Some(t as nat),
                    None => None,
                },
                crate::text::opt_str_view(error),
            ),
            " \u{b7} "@,
        ),
        r.1 == error.is_some(),
{
    let mut notes: Vec<String> = Vec::new();
    if let Some(e) = error {
        let mut t = String::from_str("Error: ");
        t.append(e);
        t.append(" \u{2014} showing names only");
        notes.push(t);
    }
    notes.push(count_of(matches, "match", "matches"));
    if matches > cap {
        let mut t = String::from_str("showing the first ");
        t.append(decimal_string(cap as u64).as_str());
        notes.push(t);
    }
    if let Some(total) = truncated {
        let mut t = String::from_str("Showing first ");
        t.append(decimal_string(entries as u64).as_str());
        t.append(" of ");
        t.append(decimal_string(total as u64).as_str());
        t.append(" entries.");
        notes.push(t);
    }
    let ghost tr = match truncated {
        Some(t) => Some(t as nat),
        None => None::<nat>,
    };
    proof {
        assert(views(notes@) =~= notice_parts(
            matches as nat,
            cap as nat,
            entries as nat,
            tr,
            crate::text::opt_str_view(error),
        ));
    }
    (join_strings(&notes, " \u{b7} "), error.is_some())
}

} // verus!
