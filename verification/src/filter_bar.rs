//! The filter bar above a table view: one line per filter, the column, what
//! to test it with, and the value to test it against. The bar only describes
//! the filters; turning them into a `WHERE` clause is the table view's job.

use vstd::prelude::*;
use crate::text;
use crate::text::{chars_eq, chars_of, copy_string, trimmed};

verus! {

/// What a filter tests a column with.
#[derive(Debug, Clone, Copy, PartialEq, Eq, Structural)]
pub enum Operator {
    Equals,
    NotEquals,
    Greater,
    GreaterOrEqual,
    Less,
    LessOrEqual,
    Like,
    NotLike,
    In,
    NotIn,
    IsNull,
    IsNotNull,
}

/// The operator as it is written in SQL, which is also what the dropdown
/// shows.
pub open spec fn label_spec(op: Operator) -> Seq<char> {
    match op {
        Operator::Equals => "="@,
        Operator::NotEquals => "<>"@,
        Operator::Greater => ">"@,
        Operator::GreaterOrEqual => ">="@,
        Operator::Less => "<"@,
        Operator::LessOrEqual => "<="@,
        Operator::Like => "LIKE"@,
        Operator::NotLike => "NOT LIKE"@,
        Operator::In => "IN"@,
        Operator::NotIn => "NOT IN"@,
        Operator::IsNull => "IS NULL"@,
        Operator::IsNotNull => "IS NOT NULL"@,
    }
}

/// The operators in the order the dropdown lists them.
pub open spec fn all_spec() -> Seq<Operator> {
    seq![
        Operator::Equals,
        Operator::NotEquals,
        Operator::Greater,
        Operator::GreaterOrEqual,
        Operator::Less,
        Operator::LessOrEqual,
        Operator::Like,
        Operator::NotLike,
        Operator::In,
        Operator::NotIn,
        Operator::IsNull,
        Operator::IsNotNull,
    ]
}

/// The labels say what every label is, letter by letter.
proof fn reveal_labels()
    ensures
        forall|op: Operator| #[trigger] label_spec(op) == label_spec(op),
        "="@ == seq!['='],
        "<>"@ == seq!['<', '>'],
        ">"@ == seq!['>'],
        ">="@ == seq!['>', '='],
        "<"@ == seq!['<'],
        "<="@ == seq!['<', '='],
        "LIKE"@ == seq!['L', 'I', 'K', 'E'],
        "NOT LIKE"@ == seq!['N', 'O', 'T', ' ', 'L', 'I', 'K', 'E'],
        "IN"@ == seq!['I', 'N'],
        "NOT IN"@ == seq!['N', 'O', 'T', ' ', 'I', 'N'],
        "IS NULL"@ == seq!['I', 'S', ' ', 'N', 'U', 'L', 'L'],
        "IS NOT NULL"@ == seq!['I', 'S', ' ', 'N', 'O', 'T', ' ', 'N', 'U', 'L', 'L'],
{
    reveal_strlit("=");
    reveal_strlit("<>");
    reveal_strlit(">");
    reveal_strlit(">=");
    reveal_strlit("<");
    reveal_strlit("<=");
    reveal_strlit("LIKE");
    reveal_strlit("NOT LIKE");
    reveal_strlit("IN");
    reveal_strlit("NOT IN");
    reveal_strlit("IS NULL");
    reveal_strlit("IS NOT NULL");
    assert("="@ =~= seq!['=']);
    assert("<>"@ =~= seq!['<', '>']);
    assert(">"@ =~= seq!['>']);
    assert(">="@ =~= seq!['>', '=']);
    assert("<"@ =~= seq!['<']);
    assert("<="@ =~= seq!['<', '=']);
    assert("LIKE"@ =~= seq!['L', 'I', 'K', 'E']);
    assert("NOT LIKE"@ =~= seq!['N', 'O', 'T', ' ', 'L', 'I', 'K', 'E']);
    assert("IN"@ =~= seq!['I', 'N']);
    assert("NOT IN"@ =~= seq!['N', 'O', 'T', ' ', 'I', 'N']);
    assert("IS NULL"@ =~= seq!['I', 'S', ' ', 'N', 'U', 'L', 'L']);
    assert("IS NOT NULL"@ =~= seq!['I', 'S', ' ', 'N', 'O', 'T', ' ', 'N', 'U', 'L', 'L']);
}

/// No two operators share a label.
pub proof fn labels_differ(a: Operator, b: Operator)
    ensures
        label_spec(a) == label_spec(b) ==> a == b,
{
    reveal_labels();
    if label_spec(a) == label_spec(b) && a != b {
        let la = label_spec(a);
        let lb = label_spec(b);
        assert(la.len() == lb.len());
        assert(la[0] == lb[0]);
        if la.len() > 1 {
            assert(la[1] == lb[1]);
        }
        if la.len() > 4 {
            assert(la[4] == lb[4]);
        }
        if la.len() > 3 {
            assert(la[3] == lb[3]);
        }
    }
}

impl Operator {
    /// Every operator, in the order the dropdown lists them.
    pub const ALL: [Operator; 12] = [
        Operator::Equals,
        Operator::NotEquals,
        Operator::Greater,
        Operator::GreaterOrEqual,
        Operator::Less,
        Operator::LessOrEqual,
        Operator::Like,
        Operator::NotLike,
        Operator::In,
        Operator::NotIn,
        Operator::IsNull,
        Operator::IsNotNull,
    ];

    /// The operator as it is written in SQL, which is also what the dropdown
    /// shows: this is a tool for people who know the language.
    pub fn label(self) -> (r: &'static str)
        ensures
            r@ == label_spec(self),
    {
        match self {
            Operator::Equals => "=",
            Operator::NotEquals => "<>",
            Operator::Greater => ">",
            Operator::GreaterOrEqual => ">=",
            Operator::Less => "<",
            Operator::LessOrEqual => "<=",
            Operator::Like => "LIKE",
            Operator::NotLike => "NOT LIKE",
            Operator::In => "IN",
            Operator::NotIn => "NOT IN",
            Operator::IsNull => "IS NULL",
            Operator::IsNotNull => "IS NOT NULL",
        }
    }

    /// The operator a dropdown label names, if any.
    pub fn from_label(label: &str) -> (r: Option<Operator>)
        ensures
            match r {
                Some(op) => label_spec(op) == label@,
                None => forall|op: Operator| label_spec(op) != label@,
            },
    {
        let text = chars_of(label);
        let all = Self::ALL;
        let mut i: usize = 0;
        while i < 12
            invariant
                text@ == label@,
                all@ == all_spec(),
                i <= 12,
                forall|j: int| 0 <= j < i ==> label_spec(#[trigger] all_spec()[j]) != label@,
            decreases 12 - i,
        {
            let op = all[i];
            if chars_eq(&chars_of(op.label()), &text) {
                return Some(op);
            }
            i = i + 1;
        }
        proof {
            assert forall|op: Operator| label_spec(op) != label@ by {
                let j = match op {
                    Operator::Equals => 0int,
                    Operator::NotEquals => 1,
                    Operator::Greater => 2,
                    Operator::GreaterOrEqual => 3,
                    Operator::Less => 4,
                    Operator::LessOrEqual => 5,
                    Operator::Like => 6,
                    Operator::NotLike => 7,
                    Operator::In => 8,
                    Operator::NotIn => 9,
                    Operator::IsNull => 10,
                    Operator::IsNotNull => 11,
                };
                assert(all_spec()[j] == op);
            }
        }
        None
    }

    /// Whether the filter needs something to compare against.
    pub fn needs_value(self) -> (r: bool)
        ensures
            r == !(self == Operator::IsNull || self == Operator::IsNotNull),
    {
        !(self == Operator::IsNull || self == Operator::IsNotNull)
    }

    /// Whether the value is SQL rather than a plain value: `IN` and `NOT IN`
    /// take a list or a subquery, so what is typed goes into the statement
    /// as written instead of being bound as a parameter.
    pub fn takes_expression(self) -> (r: bool)
        ensures
            r == (self == Operator::In || self == Operator::NotIn),
    {
        self == Operator::In || self == Operator::NotIn
    }

    /// The hint the value box shows for this operator.
    pub fn value_hint(self) -> (r: &'static str)
        ensures
            r@ == (if self == Operator::In || self == Operator::NotIn {
                "1, 2 or select id from …"@
            } else {
                "value"@
            }),
    {
        if self.takes_expression() {
            "1, 2 or select id from …"
        } else {
            "value"
        }
    }
}

/// One filter, as the owner reads it.
#[derive(Debug, Clone, PartialEq, Eq)]
pub struct FilterSpec {
    pub column: String,
    pub operator: Operator,
    /// Empty when the operator needs no value.
    pub value: String,
}

/// The filter one line of the bar describes, if it is finished: a column is
/// chosen, the operator label names an operator, and there is a value when
/// the operator needs one. The value is trimmed.
pub open spec fn line_spec(
    column: Option<Seq<char>>,
    operator: Option<Seq<char>>,
    value: Seq<char>,
) -> Option<(Seq<char>, Operator, Seq<char>)> {
    match (column, operator) {
        (Some(c), Some(label)) => if exists|op: Operator| label_spec(op) == label {
            let op = choose|op: Operator| label_spec(op) == label;
            let v = text::trim(value);
            if !(op == Operator::IsNull || op == Operator::IsNotNull) && v.len() == 0 {
                None
            } else {
                Some((c, op, v))
            }
        } else {
            None
        },
        _ => None,
    }
}

/// A filter line as the specification sees it.
pub open spec fn filter_view(f: FilterSpec) -> (Seq<char>, Operator, Seq<char>) {
    (f.column@, f.operator, f.value@)
}

/// The filter one line of the bar describes, when it is finished; a line
/// with nothing to compare against is still being written, so it narrows
/// nothing yet.
pub fn filter_line(column: Option<&str>, operator: Option<&str>, value: &str) -> (r: Option<
    FilterSpec,
>)
    ensures
        match r {
            Some(f) => line_spec(text::opt_str_view(column), text::opt_str_view(operator), value@)
                == Some(filter_view(f)),
            None => line_spec(text::opt_str_view(column), text::opt_str_view(operator), value@) is None,
        },
{
    let column = match column {
        Some(c) => c,
        None => {
            return None;
        },
    };
    let label = match operator {
        Some(o) => o,
        None => {
            return None;
        },
    };
    let op = match Operator::from_label(label) {
        Some(op) => op,
        None => {
            return None;
        },
    };
    proof {
        let chosen = choose|o: Operator| label_spec(o) == label@;
        labels_differ(chosen, op);
    }
    let value = trimmed(value);
    if op.needs_value() && value.as_str().is_empty() {
        return None;
    }
    Some(FilterSpec { column: String::from_str(column), operator: op, value })
}

/// What the bar's lines describe, the unfinished ones left out, in order.
pub open spec fn lines_spec(lines: Seq<(Option<String>, Option<String>, String)>) -> Seq<
    (Seq<char>, Operator, Seq<char>),
>
    decreases lines.len(),
{
    if lines.len() == 0 {
        Seq::empty()
    } else {
        let rest = lines_spec(lines.drop_last());
        let l = lines.last();
        match line_spec(text::opt_view(l.0), text::opt_view(l.1), l.2@) {
            Some(f) => rest.push(f),
            None => rest,
        }
    }
}

/// The filters as they stand: for each line, its chosen column, operator
/// label, and typed value; the unfinished lines left out.
pub fn specs(lines: &Vec<(Option<String>, Option<String>, String)>) -> (r: Vec<FilterSpec>)
    ensures
        r@.map_values(|f: FilterSpec| filter_view(f)) == lines_spec(lines@),
{
    let mut out: Vec<FilterSpec> = Vec::new();
    let mut i: usize = 0;
    while i < lines.len()
        invariant
            i <= lines@.len(),
            out@.map_values(|f: FilterSpec| filter_view(f)) == lines_spec(lines@.take(i as int)),
        decreases lines@.len() - i,
    {
        let (column, operator, value) = &lines[i];
        let c = match column {
            Some(c) => Some(c.as_str()),
            None => None,
        };
        let o = match operator {
            Some(o) => Some(o.as_str()),
            None => None,
        };
        let ghost before = out@.map_values(|f: FilterSpec| filter_view(f));
        proof {
            assert(lines@.take(i + 1).drop_last() =~= lines@.take(i as int));
        }
        match filter_line(c, o, value.as_str()) {
            Some(f) => {
                out.push(f);
                proof {
                    assert(out@.map_values(|f: FilterSpec| filter_view(f)) =~= before.push(
                        filter_view(out@.last()),
                    ));
                }
            },
            None => {},
        }
        i = i + 1;
    }
    proof {
        assert(lines@.take(lines@.len() as int) =~= lines@);
    }
    out
}

/// The column list a filter set from outside offers, and which entry of it
/// is chosen: the table's own columns when the column is one of them, the
/// column alone otherwise.
pub fn column_choices(columns: &Vec<String>, column: &str) -> (r: (Vec<String>, usize))
    ensures
        (exists|i: int| 0 <= i < columns@.len() && #[trigger] columns@[i]@ == column@) ==> (
        text::views(r.0@) == text::views(columns@) && r.1 < columns@.len() && columns@[r.1 as int]@
            == column@ && forall|j: int| 0 <= j < r.1 ==> #[trigger] columns@[j]@ != column@),
        !(exists|i: int| 0 <= i < columns@.len() && #[trigger] columns@[i]@ == column@) ==> (
        text::views(r.0@) == seq![column@] && r.1 == 0),
{
    let wanted = chars_of(column);
    let mut i: usize = 0;
    while i < columns.len()
        invariant
            wanted@ == column@,
            i <= columns@.len(),
            forall|j: int| 0 <= j < i ==> #[trigger] columns@[j]@ != column@,
        decreases columns@.len() - i,
    {
        if chars_eq(&chars_of(columns[i].as_str()), &wanted) {
            return (text::copy_strings(columns), i);
        }
        i = i + 1;
    }
    let mut only: Vec<String> = Vec::new();
    only.push(String::from_str(column));
    proof {
        assert(text::views(only@) =~= seq![column@]);
    }
    (only, 0)
}


/// A line of the bar as the specification sees it: the column chosen, the
/// operator label chosen, and the value typed.
pub open spec fn line_view(l: (Option<String>, Option<String>, String)) -> (
    Option<Seq<char>>,
    Option<Seq<char>>,
    Seq<char>,
) {
    (text::opt_view(l.0), text::opt_view(l.1), l.2@)
}

/// Whether two lists of names read the same.
fn same_names(a: &Vec<String>, b: &Vec<String>) -> (r: bool)
    ensures
        r == (text::views(a@) == text::views(b@)),
{
    if a.len() != b.len() {
        proof {
            assert(text::views(a@).len() != text::views(b@).len());
        }
        return false;
    }
    let mut i: usize = 0;
    while i < a.len()
        invariant
            a@.len() == b@.len(),
            i <= a@.len(),
            forall|j: int| 0 <= j < i ==> #[trigger] a@[j]@ == b@[j]@,
        decreases a.len() - i,
    {
        if a[i] != b[i] {
            proof {
                assert(text::views(a@)[i as int] != text::views(b@)[i as int]);
            }
            return false;
        }
        i = i + 1;
    }
    proof {
        assert(text::views(a@) =~= text::views(b@));
    }
    true
}

/// The filter bar: the columns its dropdowns offer, and its lines.
pub struct FilterBar {
    pub columns: Vec<String>,
    /// Each line's chosen column, chosen operator label, and typed value.
    pub lines: Vec<(Option<String>, Option<String>, String)>,
}

impl FilterBar {
    /// The lines as the specification sees them.
    pub open spec fn line_views(&self) -> Seq<(Option<Seq<char>>, Option<Seq<char>>, Seq<char>)> {
        self.lines@.map_values(|l: (Option<String>, Option<String>, String)| line_view(l))
    }

    /// A bar with no columns and no lines.
    pub fn new() -> (r: Self)
        ensures
            r.columns@.len() == 0,
            r.lines@.len() == 0,
    {
        FilterBar { columns: Vec::new(), lines: Vec::new() }
    }

    /// The table's columns, for the dropdowns. A filter is about a column
    /// of the table it was written for, so when the columns change under the
    /// bar (another database, another table) its lines go, rather than
    /// quietly filtering on a name that is not there. The answer is whether
    /// the columns changed.
    pub fn set_columns(&mut self, columns: Vec<String>) -> (r: bool)
        ensures
            r == (text::views(columns@) != text::views(old(self).columns@)),
            text::views(final(self).columns@) == text::views(columns@),
            !r || old(self).columns@.len() == 0 ==> final(self).lines@ == old(self).lines@,
            r && old(self).columns@.len() > 0 ==> final(self).lines@.len() == 0,
    {
        if same_names(&self.columns, &columns) {
            return false;
        }
        let had_columns = self.columns.len() > 0;
        self.columns = columns;
        if had_columns {
            self.lines = Vec::new();
        }
        true
    }

    /// Add an empty line, on the first column and `=`; a bar with no
    /// columns yet has nothing to offer and adds none.
    pub fn add_filter(&mut self)
        ensures
            final(self).columns == old(self).columns,
            old(self).columns@.len() == 0 ==> final(self).lines@ == old(self).lines@,
            old(self).columns@.len() > 0 ==> final(self).line_views() == old(self).line_views().push(
                (Some(old(self).columns@[0]@), Some(label_spec(Operator::Equals)), Seq::empty()),
            ),
    {
        if self.columns.len() == 0 {
            return;
        }
        let ghost before = self.line_views();
        let column = copy_string(&self.columns[0]);
        self.lines.push((Some(column), Some(String::from_str(Operator::Equals.label())), String::new()));
        proof {
            assert(self.line_views() =~= before.push(
                (Some(self.columns@[0]@), Some(label_spec(Operator::Equals)), Seq::empty()),
            ));
        }
    }

    /// Replace every line with one already filled in (a jump along a
    /// foreign key asks for exactly the row it points at). The answer is
    /// the column list that line's dropdown offers: the table's columns
    /// when `column` is one of them, else `column` alone, since the table's
    /// columns may not be known yet.
    pub fn set_filter(&mut self, column: &str, operator: Operator, value: &str) -> (r: Vec<String>)
        ensures
            final(self).columns == old(self).columns,
            final(self).line_views() == seq![(Some(column@), Some(label_spec(operator)), value@)],
            (exists|i: int| 0 <= i < old(self).columns@.len() && #[trigger] old(self).columns@[i]@
                == column@) ==> text::views(r@) == text::views(old(self).columns@),
            !(exists|i: int| 0 <= i < old(self).columns@.len() && #[trigger] old(self).columns@[i]@
                == column@) ==> text::views(r@) == seq![column@],
    {
        let (items, _) = column_choices(&self.columns, column);
        let chosen = String::from_str(column);
        let mut lines: Vec<(Option<String>, Option<String>, String)> = Vec::new();
        lines.push((Some(chosen), Some(String::from_str(operator.label())), String::from_str(value)));
        self.lines = lines;
        proof {
            assert(self.line_views() =~= seq![(Some(column@), Some(label_spec(operator)), value@)]);
        }
        items
    }

    /// Take away the line at `index`; the answer is whether there was one
    /// (and so whether the filters changed).
    pub fn remove_filter(&mut self, index: usize) -> (r: bool)
        ensures
            r == (index < old(self).lines@.len()),
            final(self).columns == old(self).columns,
            r ==> final(self).lines@ == old(self).lines@.remove(index as int),
            !r ==> final(self).lines@ == old(self).lines@,
    {
        if index >= self.lines.len() {
            return false;
        }
        self.lines.remove(index);
        true
    }

    /// Throw every line away; the answer is whether there were any.
    pub fn clear(&mut self) -> (r: bool)
        ensures
            r == (old(self).lines@.len() > 0),
            final(self).columns == old(self).columns,
            final(self).lines@.len() == 0,
    {
        if self.lines.len() == 0 {
            return false;
        }
        self.lines = Vec::new();
        true
    }

    /// The filters as they stand, the unfinished lines left out.
    pub fn specs(&self) -> (r: Vec<FilterSpec>)
        ensures
            r@.map_values(|f: FilterSpec| filter_view(f)) == lines_spec(self.lines@),
    {
        specs(&self.lines)
    }
}

} // verus!
