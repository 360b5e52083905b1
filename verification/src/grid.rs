//! The grid's view of a result, and the overlays staged on top of it.
//!
//! [`ResultDelegate`] holds, beside the result, everything the user has done
//! to it but not written yet: typed cells, rows being built by hand, rows
//! marked for deletion, and the rows picked out with the checkboxes. It is
//! the one place that knows what a cell currently says.
//!
//! Rows are addressed two ways. A *shown* row is a position on screen: the
//! result's rows in display order, then the rows being built by hand. A
//! *source* row is an index into the result's own rows, which is what edits
//! and deletions are keyed by, so a re-sort never loses them.

use vstd::prelude::*;
use crate::keyed::KeyedVec;
use crate::keyed;
use crate::query::{Cell, QueryResult, copy_cell, is_binary_type, is_placeholder};
use crate::query;
use crate::clipboard::Snapshot;
use crate::format::needs_a_window;
use crate::text;
use crate::text::{chars_eq_ignore_case, chars_of, copy_string, decimal_string};

verus! {

/// What a row shown in the grid is, for an owner that lays one out apart
/// from it.
#[derive(Debug, Clone, Copy, PartialEq, Eq, Structural)]
pub enum RowStatus {
    Loaded,
    Draft,
    Deleted,
}

/// One row's staged cells, by column index, for the owner to turn into SQL.
#[derive(Debug, Clone, PartialEq, Eq)]
pub struct StagedRow {
    /// Index into the result's own rows, not the display order.
    pub row: usize,
    pub cells: Vec<(usize, Cell)>,
}

/// The grid's state as the specification sees it.
#[verifier::ext_equal]
pub struct GridModel {
    pub columns: Seq<Seq<char>>,
    /// The result's rows as they were loaded.
    pub rows: Seq<Seq<Option<Seq<char>>>>,
    pub column_types: Seq<Seq<char>>,
    /// Source rows in display order.
    pub order: Seq<usize>,
    /// Values typed over loaded cells, by source row and column.
    pub edits: Map<(usize, usize), Option<Seq<char>>>,
    /// Rows being built by hand, each the cells typed into it so far.
    pub drafts: Seq<Map<usize, Option<Seq<char>>>>,
    /// Source rows marked for deletion.
    pub deletions: Set<usize>,
    /// Shown rows picked out with the checkboxes.
    pub picked: Set<usize>,
    pub anchor: Option<usize>,
    pub editable: bool,
    pub editing: Option<(usize, usize)>,
    /// The row the keyboard is on.
    pub focused: Option<usize>,
}

/// The cells of a loaded row, as text.
pub open spec fn row_view(row: Vec<Cell>) -> Seq<Option<Seq<char>>> {
    row@.map_values(|c: Cell| text::opt_view(c))
}

/// The cells typed into a draft row, as text.
pub open spec fn draft_view(d: KeyedVec<Cell>) -> Map<usize, Option<Seq<char>>> {
    d@.map_values(|c: Cell| text::opt_view(c))
}

/// The value a reference to a cell's text stands for.
pub open spec fn ref_view(r: Option<&String>) -> Option<Seq<char>> {
    match r {
        Some(s) => Some(s@),
        None => None,
    }
}

impl GridModel {
    /// How many rows are shown: the result's, then the drafts.
    pub open spec fn shown(self) -> nat {
        self.order.len() + self.drafts.len()
    }

    /// The source row shown at `row`, if it is a loaded one.
    pub open spec fn source(self, row: usize) -> Option<usize> {
        if row < self.order.len() {
            Some(self.order[row as int])
        } else {
            None
        }
    }

    /// The draft shown at `row`, if it is one.
    pub open spec fn draft(self, row: usize) -> Option<int> {
        if self.order.len() <= row < self.shown() {
            Some(row - self.order.len())
        } else {
            None
        }
    }

    /// The value at source row `source`, column `col`, as it was loaded;
    /// `NULL` where the row is short or absent.
    pub open spec fn loaded(self, source: usize, col: usize) -> Option<Seq<char>> {
        if source < self.rows.len() && col < self.rows[source as int].len() {
            self.rows[source as int][col as int]
        } else {
            None
        }
    }

    /// The value shown at `row`, `col` as the server has it.
    pub open spec fn baseline(self, row: usize, col: usize) -> Option<Seq<char>> {
        match self.source(row) {
            Some(s) => self.loaded(s, col),
            None => None,
        }
    }

    /// The value shown at `row`, `col` as it stands, staged edit included.
    pub open spec fn cell(self, row: usize, col: usize) -> Option<Seq<char>> {
        match self.draft(row) {
            Some(d) => if self.drafts[d].contains_key(col) {
                self.drafts[d][col]
            } else {
                None
            },
            None => match self.source(row) {
                Some(s) => if self.edits.contains_key((s, col)) {
                    self.edits[(s, col)]
                } else {
                    self.loaded(s, col)
                },
                None => None,
            },
        }
    }

    /// Whether a draft row has nothing typed into this cell yet.
    pub open spec fn untouched_draft(self, row: usize, col: usize) -> bool {
        match self.draft(row) {
            Some(d) => !self.drafts[d].contains_key(col),
            None => false,
        }
    }

    /// Whether the row shown at `row` is marked for deletion.
    pub open spec fn deleted(self, row: usize) -> bool {
        match self.source(row) {
            Some(s) => self.deletions.contains(s),
            None => false,
        }
    }

    /// Whether this cell holds a staged edit, or is a new row's typed value.
    pub open spec fn staged(self, row: usize, col: usize) -> bool {
        match self.draft(row) {
            Some(d) => self.drafts[d].contains_key(col),
            None => match self.source(row) {
                Some(s) => self.edits.contains_key((s, col)),
                None => false,
            },
        }
    }

    /// Whether this cell can be typed into: the grid is writable, the column
    /// is not binary, and the cell is a draft's, or a loaded one on a row not
    /// marked for deletion whose value was read back.
    pub open spec fn editable_cell(self, row: usize, col: usize) -> bool {
        self.editable && !(col < self.column_types.len() && query::binary_type(
            self.column_types[col as int],
        )) && (self.draft(row) is Some || (!self.deleted(row) && self.source(row) is Some
            && !query::is_description_opt(self.baseline(row, col))))
    }
}

impl GridModel {
    /// `value` staged on the cell shown at `row`, `col`: a draft keeps it
    /// whatever it is; a loaded cell keeps it as an edit, or drops its edit
    /// when the value is the one loaded; a row past the last changes nothing.
    pub open spec fn stage(self, row: usize, col: usize, value: Option<Seq<char>>) -> GridModel {
        match self.draft(row) {
            Some(d) => GridModel {
                drafts: self.drafts.update(d, self.drafts[d].insert(col, value)),
                ..self
            },
            None => match self.source(row) {
                Some(s) => if self.loaded(s, col) == value {
                    GridModel { edits: self.edits.remove((s, col)), ..self }
                } else {
                    GridModel { edits: self.edits.insert((s, col), value), ..self }
                },
                None => self,
            },
        }
    }

    /// The cell shown at `row`, `col` taken back to what it was before
    /// anything was typed into it.
    pub open spec fn reset(self, row: usize, col: usize) -> GridModel {
        match self.draft(row) {
            Some(d) => GridModel {
                drafts: self.drafts.update(d, self.drafts[d].remove(col)),
                ..self
            },
            None => match self.source(row) {
                Some(s) => GridModel { edits: self.edits.remove((s, col)), ..self },
                None => self,
            },
        }
    }

    /// Every staged edit, draft, and deletion thrown away, and the editor
    /// closed.
    pub open spec fn discarded(self) -> GridModel {
        GridModel {
            edits: Map::empty(),
            drafts: Seq::empty(),
            deletions: Set::empty(),
            editing: None,
            ..self
        }
    }
}

impl GridModel {
    /// Shown rows `first` through `last`.
    pub open spec fn span(first: usize, last: usize) -> Set<usize> {
        Set::new(|r: usize| first <= r <= last)
    }

    /// A click on a row's checkbox: with `extend` and a row picked before,
    /// every row between the two joins the selection; otherwise the row is
    /// taken in or put back, and becomes where the next sweep starts.
    pub open spec fn pick(self, row: usize, extend: bool) -> GridModel {
        if extend && self.anchor is Some {
            let a = self.anchor->0;
            let span = if a <= row {
                GridModel::span(a, row)
            } else {
                GridModel::span(row, a)
            };
            GridModel { picked: self.picked.union(span), ..self }
        } else {
            GridModel {
                picked: if self.picked.contains(row) {
                    self.picked.remove(row)
                } else {
                    self.picked.insert(row)
                },
                anchor: Some(row),
                ..self
            }
        }
    }

    /// A right click on `row`: a row outside the selection becomes the whole
    /// selection, the way a file manager does it.
    pub open spec fn mark_for_menu(self, row: usize) -> GridModel {
        if self.picked.contains(row) {
            self
        } else {
            GridModel { picked: set![row], anchor: Some(row), ..self }
        }
    }

    /// Every one of the first `rows` rows picked, or none.
    pub open spec fn pick_all(self, all: bool, rows: usize) -> GridModel {
        GridModel {
            picked: if all {
                Set::new(|r: usize| r < rows)
            } else {
                Set::empty()
            },
            anchor: None,
            ..self
        }
    }

    /// The selection forgotten; nothing changes when nothing was picked.
    pub open spec fn unpicked(self) -> GridModel {
        if self.picked.len() == 0 {
            self
        } else {
            GridModel { picked: Set::empty(), anchor: None, ..self }
        }
    }
}

/// The drafts of `ds` whose shown row is not picked, the first of them shown
/// at `first`.
pub open spec fn kept_drafts(
    ds: Seq<Map<usize, Option<Seq<char>>>>,
    picked: Set<usize>,
    first: nat,
) -> Seq<Map<usize, Option<Seq<char>>>>
    decreases ds.len(),
{
    if ds.len() == 0 {
        Seq::empty()
    } else if picked.contains(first as usize) {
        kept_drafts(ds.drop_first(), picked, first + 1)
    } else {
        seq![ds[0]] + kept_drafts(ds.drop_first(), picked, first + 1)
    }
}

impl GridModel {
    /// The source rows of the picked rows.
    pub open spec fn picked_sources(self) -> Set<usize> {
        Set::new(
            |s: usize| exists|r: usize| #[trigger] self.picked.contains(r) && self.source(r) == Some(s),
        )
    }

    /// Every picked row marked for deletion, or the mark taken off again.
    ///
    /// A picked draft is not in the result, so deleting drops it outright;
    /// the rows that moved up into its place are no longer picked, since
    /// their positions now belong to other rows.
    pub open spec fn set_deleted(self, deleted: bool) -> GridModel {
        if !deleted {
            GridModel { deletions: self.deletions.difference(self.picked_sources()), ..self }
        } else {
            let drafts = kept_drafts(self.drafts, self.picked, self.order.len());
            let remaining = self.order.len() + drafts.len();
            GridModel {
                deletions: self.deletions.union(self.picked_sources()),
                drafts: drafts,
                picked: Set::new(|r: usize| self.picked.contains(r) && r < remaining),
                anchor: match self.anchor {
                    Some(a) => if a < remaining {
                        Some(a)
                    } else {
                        None
                    },
                    None => None,
                },
                ..self
            }
        }
    }
}

/// A staged row as text: its source row and its cells by column.
pub open spec fn staged_row_view(r: StagedRow) -> (usize, Seq<(usize, Option<Seq<char>>)>) {
    (r.row, cells_view(r.cells@))
}

/// Cells keyed by column, as text.
pub open spec fn cells_view(cells: Seq<(usize, Cell)>) -> Seq<(usize, Option<Seq<char>>)> {
    cells.map_values(|c: (usize, Cell)| (c.0, text::opt_view(c.1)))
}

/// Whether `cells` lists `m` in ascending column order.
pub open spec fn lists_cells(
    cells: Seq<(usize, Option<Seq<char>>)>,
    m: Map<usize, Option<Seq<char>>>,
) -> bool {
    &&& forall|a: int, b: int| 0 <= a < b < cells.len() ==> #[trigger] cells[a].0 < #[trigger] cells[b].0
    &&& forall|a: int| 0 <= a < cells.len() ==> m.contains_key(#[trigger] cells[a].0) && m[cells[a].0] == cells[a].1
    &&& forall|c: usize| #[trigger] m.contains_key(c) ==> exists|a: int| 0 <= a < cells.len() && (#[trigger] cells[a]).0 == c
}

impl GridModel {
    /// The cells staged on source row `s`, by column.
    pub open spec fn row_edits(self, s: usize) -> Map<usize, Option<Seq<char>>> {
        Map::new(|c: usize| self.edits.contains_key((s, c)), |c: usize| self.edits[(s, c)])
    }

    /// Source rows with at least one staged edit.
    pub open spec fn edited_rows(self) -> Set<usize> {
        Set::new(|s: usize| exists|c: usize| #[trigger] self.edits.contains_key((s, c)))
    }

    /// Whether `out` lists the staged edits: one entry per edited source row,
    /// in ascending row order, each with its cells in ascending column order.
    pub open spec fn lists_staged(self, out: Seq<(usize, Seq<(usize, Option<Seq<char>>)>)>) -> bool {
        &&& forall|i: int, j: int| 0 <= i < j < out.len() ==> #[trigger] out[i].0 < #[trigger] out[j].0
        &&& forall|i: int| 0 <= i < out.len() ==> self.edited_rows().contains(#[trigger] out[i].0)
            && lists_cells(out[i].1, self.row_edits(out[i].0))
        &&& forall|s: usize| #[trigger] self.edited_rows().contains(s) ==> exists|i: int|
            0 <= i < out.len() && (#[trigger] out[i]).0 == s
    }
}

impl GridModel {
    /// Source row `r`'s staged edits taken as written: they become its loaded
    /// values where the row has such a cell, and are no longer staged.
    pub open spec fn apply_row(self, r: usize) -> GridModel {
        GridModel {
            rows: if r < self.rows.len() {
                self.rows.update(
                    r as int,
                    Seq::new(
                        self.rows[r as int].len(),
                        |c: int|
                            if self.edits.contains_key((r, c as usize)) {
                                self.edits[(r, c as usize)]
                            } else {
                                self.rows[r as int][c]
                            },
                    ),
                )
            } else {
                self.rows
            },
            edits: Map::new(
                |k: (usize, usize)| self.edits.contains_key(k) && k.0 != r,
                |k: (usize, usize)| self.edits[k],
            ),
            ..self
        }
    }

    /// Each of `rows`, in turn, with its staged edits taken as written.
    pub open spec fn applied(self, rows: Seq<usize>) -> GridModel
        decreases rows.len(),
    {
        if rows.len() == 0 {
            self
        } else {
            self.applied(rows.drop_last()).apply_row(rows.last())
        }
    }

    /// A grid showing `result` in the order its rows came, with nothing
    /// staged, picked, or being edited.
    pub open spec fn fresh(result: QueryResult, editable: bool) -> GridModel {
        GridModel {
            columns: text::views(result.columns@),
            rows: result.rows@.map_values(|r: Vec<Cell>| row_view(r)),
            column_types: text::views(result.column_types@),
            order: Seq::new(result.rows@.len(), |i: int| i as usize),
            edits: Map::empty(),
            drafts: Seq::empty(),
            deletions: Set::empty(),
            picked: Set::empty(),
            anchor: None,
            editable: editable,
            editing: None,
            focused: None,
        }
    }

    /// Writing allowed or not; taking it away throws every staged change
    /// away, and either way the editor closes. Nothing changes when it is
    /// already so.
    pub open spec fn with_editable(self, editable: bool) -> GridModel {
        if self.editable == editable {
            self
        } else if editable {
            GridModel { editable: true, editing: None, ..self }
        } else {
            GridModel {
                editable: false,
                editing: None,
                edits: Map::empty(),
                drafts: Seq::empty(),
                deletions: Set::empty(),
                ..self
            }
        }
    }

    /// A new row to fill in by hand, after the ones shown; only on a grid
    /// that can be written.
    pub open spec fn with_draft(self) -> GridModel {
        if self.editable && self.shown() < usize::MAX {
            GridModel { drafts: self.drafts.push(Map::empty()), ..self }
        } else {
            self
        }
    }

    /// The row being built at `d` dropped, the others left alone.
    pub open spec fn without_draft(self, d: usize) -> GridModel {
        if d < self.drafts.len() {
            GridModel { drafts: self.drafts.remove(d as int), ..self }
        } else {
            self
        }
    }
}

/// Which rows, and how many columns, a snapshot takes.
#[derive(Debug, Clone, Copy, PartialEq, Eq, Structural)]
pub enum Scope {
    /// The picked rows, in shown order. Empty when nothing is picked.
    Picked,
    /// Every row shown, picked or not.
    All,
    /// One column of the rows a copy acts on: the picked ones when any are
    /// picked, every row shown otherwise.
    Column(usize),
}

/// The value a typed string stages: `NULL` in any ASCII case means SQL
/// `NULL` when `coerce` says so, and the text itself otherwise.
pub open spec fn staged_value_spec(text: Seq<char>, coerce: bool) -> Option<Seq<char>> {
    if coerce && text::eq_ignore_case(text, "null"@) {
        None
    } else {
        Some(text)
    }
}

/// The row menu's delete item: what it does, to how many rows.
pub open spec fn delete_label_spec(deleted: bool, rows: nat) -> Seq<char> {
    if !deleted {
        if rows == 1 {
            "Delete row"@
        } else {
            "Delete "@ + text::decimal(rows) + " rows"@
        }
    } else {
        if rows == 1 {
            "Restore row"@
        } else {
            "Restore "@ + text::decimal(rows) + " rows"@
        }
    }
}

impl GridModel {
    /// The rows a scope takes, as a set of shown rows.
    pub open spec fn scope_rows(self, scope: Scope) -> Set<usize> {
        let all = Set::new(|r: usize| r < self.shown());
        match scope {
            Scope::All => all,
            Scope::Picked => self.picked,
            Scope::Column(_) => if self.picked.len() == 0 {
                all
            } else {
                self.picked
            },
        }
    }

    /// The columns a scope takes, by index.
    pub open spec fn scope_columns(self, scope: Scope) -> Seq<usize> {
        match scope {
            Scope::Column(c) => if c < self.columns.len() {
                seq![c]
            } else {
                Seq::empty()
            },
            _ => Seq::new(self.columns.len(), |i: int| i as usize),
        }
    }

    /// The names of the columns a scope takes.
    pub open spec fn scope_names(self, scope: Scope) -> Seq<Seq<char>> {
        match scope {
            Scope::Column(c) => if c < self.columns.len() {
                seq![self.columns[c as int]]
            } else {
                Seq::empty()
            },
            _ => self.columns,
        }
    }

    /// The driver types of the columns a scope takes.
    pub open spec fn scope_types(self, scope: Scope) -> Seq<Seq<char>> {
        match scope {
            Scope::Column(c) => if c < self.column_types.len() {
                seq![self.column_types[c as int]]
            } else {
                Seq::empty()
            },
            _ => self.column_types,
        }
    }
}

/// Whether `s` strictly ascends.
pub open spec fn increasing(s: Seq<usize>) -> bool {
    forall|i: int, j: int| 0 <= i < j < s.len() ==> #[trigger] s[i] < #[trigger] s[j]
}

/// A snapshot as text.
pub open spec fn snapshot_view(s: Snapshot) -> (Seq<Seq<char>>, Seq<Seq<char>>, Seq<Seq<Option<Seq<char>>>>) {
    (text::views(s.columns@), text::views(s.types@), s.rows@.map_values(|r: Vec<Cell>| row_view(r)))
}

/// What the table reports that the grid answers.
#[derive(Debug, Clone, Copy, PartialEq, Eq, Structural)]
pub enum TableEvent {
    /// The selection moved to a cell, in shown coordinates.
    SelectCell(usize, usize),
    /// A key arrived with nothing selected, and the table picked a row.
    SelectRow(usize),
    /// A cell was double-clicked, in shown coordinates.
    DoubleClickedCell(usize, usize),
    /// The selection was cleared.
    ClearSelection,
    /// Anything else the table reports.
    Other,
}

/// What the grid does about a table event.
#[derive(Debug, Clone, Copy, PartialEq, Eq, Structural)]
pub enum GridStep {
    /// Nothing.
    Nothing,
    /// Move the selection to the first value column of this row: the
    /// checkbox column holds no value to copy, edit, or view.
    SelectFirstColumn(usize),
    /// Open the value window on this cell, in result columns.
    ViewCell(usize, usize),
    /// Open the one-line editor on this cell, in result columns.
    BeginEdit(usize, usize),
    /// The selection moved to this row, or off every row; with the flag,
    /// the picked rows are forgotten too. The open editor is folded in
    /// before the keyboard's row is moved.
    Focus(Option<usize>, bool),
}

/// Whether a value, as text, wants a window of its own rather than the
/// one-line editor.
pub open spec fn big_value(v: Option<Seq<char>>, data_type: Seq<char>) -> bool {
    query::binary_type(data_type) || match v {
        None => false,
        Some(t) => query::is_description(t) || t.contains('\n') || t.len() > crate::format::LONG_VALUE || ((
        crate::format::starts_with(text::upper_seq(data_type), "JSON"@) || crate::format::looks_like_json(t))
            && crate::format::json_layout(t) is Some),
    }
}

impl GridModel {
    /// The driver type of column `col`, empty when the result names none.
    pub open spec fn column_type(self, col: usize) -> Seq<char> {
        if col < self.column_types.len() {
            self.column_types[col as int]
        } else {
            Seq::empty()
        }
    }

    /// What the grid does about `event`.
    pub open spec fn step(self, event: TableEvent) -> GridStep {
        match event {
            TableEvent::SelectCell(row, 0) => if self.columns.len() == 0 {
                GridStep::Nothing
            } else {
                GridStep::SelectFirstColumn(row)
            },
            TableEvent::SelectRow(row) => if self.columns.len() == 0 {
                GridStep::Nothing
            } else {
                GridStep::SelectFirstColumn(row)
            },
            TableEvent::DoubleClickedCell(row, 0) => GridStep::Nothing,
            TableEvent::DoubleClickedCell(row, shown) => {
                let col = (shown - 1) as usize;
                if big_value(self.cell(row, col), self.column_type(col)) {
                    GridStep::ViewCell(row, col)
                } else {
                    GridStep::BeginEdit(row, col)
                }
            },
            TableEvent::ClearSelection => GridStep::Focus(None, true),
            TableEvent::SelectCell(row, _) => GridStep::Focus(Some(row), false),
            TableEvent::Other => GridStep::Nothing,
        }
    }

    /// The open editor's text folded into the staged edits, and the editor
    /// closed; nothing changes when no editor is open.
    pub open spec fn committed(self, text: Seq<char>, coerce: bool) -> GridModel {
        match self.editing {
            None => self,
            Some((row, col)) => GridModel { editing: None, ..self }.stage(
                row,
                col,
                staged_value_spec(text, coerce),
            ),
        }
    }

    /// The editor closed, keeping the cell as it was.
    pub open spec fn editor_closed(self) -> GridModel {
        GridModel { editing: None, ..self }
    }

    /// The editor opened on a cell that can be typed into.
    pub open spec fn editing_at(self, row: usize, col: usize) -> GridModel {
        if self.editable_cell(row, col) {
            GridModel { editing: Some((row, col)), ..self }
        } else {
            self
        }
    }

    /// SQL `NULL` staged on a cell that can be typed into, the editor closed
    /// first.
    pub open spec fn nulled(self, row: usize, col: usize) -> GridModel {
        if self.editable_cell(row, col) {
            self.editor_closed().stage(row, col, None)
        } else {
            self
        }
    }

    /// A value staged on a cell that can be typed into.
    pub open spec fn staged_if_editable(self, row: usize, col: usize, value: Option<Seq<char>>) -> GridModel {
        if self.editable_cell(row, col) {
            self.stage(row, col, value)
        } else {
            self
        }
    }

    /// The source row the keyboard leaves with edits waiting on it, when it
    /// moves off `self.focused`.
    pub open spec fn left_with_edits(self) -> Option<usize> {
        match self.focused {
            Some(p) => match self.source(p) {
                Some(s) => if self.edited_rows().contains(s) {
                    Some(s)
                } else {
                    None
                },
                None => None,
            },
            None => None,
        }
    }
}

/// Whether shown rows `a` and `b` are the same row: the same draft, or the
/// same source row.
pub open spec fn same_row(m: GridModel, a: usize, b: usize) -> bool {
    m.draft(a) == m.draft(b) && m.source(a) == m.source(b)
}

/// Whatever value is staged on a shown cell is what that cell then shows.
pub proof fn staged_value_is_shown(m: GridModel, row: usize, col: usize, value: Option<Seq<char>>)
    requires
        row < m.shown(),
    ensures
        m.stage(row, col, value).cell(row, col) == value,
{
}

/// Typing a loaded cell's own value back leaves nothing staged on it.
pub proof fn staging_the_loaded_value_stages_nothing(m: GridModel, row: usize, col: usize)
    requires
        m.source(row) is Some,
    ensures
        !m.stage(row, col, m.baseline(row, col)).staged(row, col),
        m.stage(row, col, m.baseline(row, col)).cell(row, col) == m.baseline(row, col),
{
}

/// Staging a value changes no other cell: every cell of another row, or of
/// another column, shows what it showed before.
pub proof fn staging_touches_one_cell(
    m: GridModel,
    row: usize,
    col: usize,
    value: Option<Seq<char>>,
    other_row: usize,
    other_col: usize,
)
    requires
        !(other_col == col && same_row(m, row, other_row)),
    ensures
        m.stage(row, col, value).cell(other_row, other_col) == m.cell(other_row, other_col),
{
}

/// Resetting a cell undoes staging a value on it, when nothing was staged
/// there before: the grid is as it was.
pub proof fn reset_undoes_stage(m: GridModel, row: usize, col: usize, value: Option<Seq<char>>)
    requires
        !m.staged(row, col),
    ensures
        m.stage(row, col, value).reset(row, col) == m,
{
    let after = m.stage(row, col, value).reset(row, col);
    match m.draft(row) {
        Some(d) => {
            assert(m.stage(row, col, value).drafts[d].remove(col) =~= m.drafts[d]);
            assert(after.drafts =~= m.drafts);
        },
        None => match m.source(row) {
            Some(s) => {
                assert(after.edits =~= m.edits);
            },
            None => {},
        },
    }
    assert(after =~= m);
}

/// Once everything is discarded no cell holds a staged value, no row is
/// being built, and none is marked for deletion.
pub proof fn discarding_leaves_nothing_staged(m: GridModel, row: usize, col: usize)
    ensures
        !m.discarded().staged(row, col),
        !m.discarded().deleted(row),
        m.discarded().drafts.len() == 0,
        m.discarded().cell(row, col) == m.baseline(row, col),
{
}

/// Keys `lo` up to, not including, `hi`, each holding nothing.
pub open spec fn range_items(lo: int, hi: int) -> Seq<(usize, ())> {
    Seq::new((hi - lo) as nat, |i: int| ((lo + i) as usize, ()))
}

/// Keys below `bound` copied from the front of `s` into a new set; also
/// where the copying stopped.
fn keys_below(items: &Vec<(usize, ())>, bound: usize) -> (r: (KeyedVec<()>, usize))
    requires
        keyed::ascending(items@),
    ensures
        r.0.wf(),
        r.1 <= items@.len(),
        r.0.items() == items@.take(r.1 as int),
        forall|j: int| 0 <= j < r.1 ==> #[trigger] items@[j].0 < bound,
        r.1 < items@.len() ==> items@[r.1 as int].0 >= bound,
{
    let ghost s = items@;
    let n = items.len();
    let mut out: KeyedVec<()> = KeyedVec::new();
    let mut i: usize = 0;
    assert(out.items() =~= s.take(0));
    while i < n && items[i].0 < bound
        invariant
            items@ == s,
            n == s.len(),
            keyed::ascending(s),
            i <= n,
            out.wf(),
            out.items() == s.take(i as int),
            forall|j: int| 0 <= j < i ==> #[trigger] s[j].0 < bound,
        decreases n - i,
    {
        proof {
            assert forall|j: int| 0 <= j < out.items().len() implies #[trigger] out.items()[j].0
                < items@[i as int].0 by {
                assert(out.items()[j] == s[j]);
            }
        }
        out.push_back(items[i].0, ());
        proof {
            assert(s[i as int] == (s[i as int].0, ()));
            assert(out.items() =~= s.take(i + 1));
        }
        i = i + 1;
    }
    (out, i)
}

/// Keys `first` through `last` added after every key `out` holds.
fn push_span(out: &mut KeyedVec<()>, first: usize, last: usize)
    requires
        old(out).wf(),
        first <= last,
        forall|j: int| 0 <= j < old(out).items().len() ==> #[trigger] old(out).items()[j].0 < first,
    ensures
        final(out).wf(),
        final(out).items() == old(out).items() + range_items(first as int, last + 1),
{
    let ghost start = out.items();
    let mut r: usize = first;
    assert(out.items() =~= start + range_items(first as int, first as int));
    while r < last
        invariant
            first <= r <= last,
            forall|j: int| 0 <= j < start.len() ==> #[trigger] start[j].0 < first,
            out.wf(),
            out.items() == start + range_items(first as int, r as int),
        decreases last - r,
    {
        proof {
            assert forall|j: int| 0 <= j < out.items().len() implies #[trigger] out.items()[j].0
                < r by {
                if j < start.len() {
                    assert(out.items()[j] == start[j]);
                } else {
                    assert(out.items()[j] == range_items(first as int, r as int)[j - start.len()]);
                }
            }
        }
        out.push_back(r, ());
        proof {
            assert(out.items() =~= start + range_items(first as int, r + 1));
        }
        r = r + 1;
    }
    proof {
        assert forall|j: int| 0 <= j < out.items().len() implies #[trigger] out.items()[j].0
            < last by {
            if j < start.len() {
                assert(out.items()[j] == start[j]);
            } else {
                assert(out.items()[j] == range_items(first as int, r as int)[j - start.len()]);
            }
        }
    }
    out.push_back(last, ());
    proof {
        assert(out.items() =~= start + range_items(first as int, last + 1));
    }
}

/// Where the keys of `s` from `i` on first pass `last`.
fn skip_through(items: &Vec<(usize, ())>, i: usize, last: usize) -> (r: usize)
    requires
        i <= items@.len(),
    ensures
        i <= r <= items@.len(),
        forall|j: int| i <= j < r ==> #[trigger] items@[j].0 <= last,
        r < items@.len() ==> items@[r as int].0 > last,
{
    let mut k: usize = i;
    while k < items.len() && items[k].0 <= last
        invariant
            i <= k <= items@.len(),
            forall|j: int| i <= j < k ==> #[trigger] items@[j].0 <= last,
        decreases items@.len() - k,
    {
        k = k + 1;
    }
    k
}

/// The entries of `s` from `i` on added after every key `out` holds.
fn push_rest(out: &mut KeyedVec<()>, items: &Vec<(usize, ())>, i: usize)
    requires
        old(out).wf(),
        keyed::ascending(items@),
        i <= items@.len(),
        i < items@.len() ==> forall|j: int|
            0 <= j < old(out).items().len() ==> #[trigger] old(out).items()[j].0 < items@[i as int].0,
    ensures
        final(out).wf(),
        final(out).items() == old(out).items() + items@.subrange(i as int, items@.len() as int),
{
    let ghost start = out.items();
    let ghost s = items@;
    let n = items.len();
    let mut k: usize = i;
    assert(out.items() =~= start + s.subrange(i as int, i as int));
    while k < n
        invariant
            items@ == s,
            n == s.len(),
            keyed::ascending(s),
            i <= k <= n,
            i < n ==> forall|j: int| 0 <= j < start.len() ==> #[trigger] start[j].0 < s[i as int].0,
            out.wf(),
            out.items() == start + s.subrange(i as int, k as int),
        decreases n - k,
    {
        proof {
            assert forall|j: int| 0 <= j < out.items().len() implies #[trigger] out.items()[j].0
                < items@[k as int].0 by {
                if j < start.len() {
                    assert(out.items()[j] == start[j]);
                    if i < k {
                        assert(s[i as int].0 < s[k as int].0);
                    }
                } else {
                    let x = i + (j - start.len());
                    assert(out.items()[j] == s[x]);
                    assert(s[x].0 < s[k as int].0);
                }
            }
        }
        out.push_back(items[k].0, ());
        proof {
            assert(s[k as int] == (s[k as int].0, ()));
            assert(out.items() =~= start + s.subrange(i as int, k + 1));
        }
        k = k + 1;
    }
}

/// `set` with every key from `first` through `last` added, built in one
/// pass in key order.
#[verifier::rlimit(40)]
fn with_span(set: &KeyedVec<()>, first: usize, last: usize) -> (r: KeyedVec<()>)
    requires
        set.wf(),
        first <= last,
    ensures
        r.wf(),
        r@.dom() == set@.dom().union(GridModel::span(first, last)),
{
    proof {
        set.lemma_items();
    }
    let items = set.entries();
    let ghost s = items@;
    let (mut out, i1) = keys_below(items, first);
    push_span(&mut out, first, last);
    let i2 = skip_through(items, i1, last);
    let ghost head = out.items();
    proof {
        if i2 < s.len() {
            assert forall|j: int| 0 <= j < head.len() implies #[trigger] head[j].0 < s[i2 as int].0 by {
                if j < i1 {
                    assert(head[j] == s[j]);
                    assert(s[j].0 < first);
                    if i1 < s.len() {
                        assert(s[i1 as int].0 >= first);
                    }
                    assert(s[i2 as int].0 > last);
                } else {
                    assert(head[j] == range_items(first as int, last + 1)[j - i1]);
                }
            }
        }
    }
    push_rest(&mut out, items, i2);
    let ghost f = out.items();
    proof {
        out.lemma_items();
        let span = GridModel::span(first, last);
        assert(f == s.take(i1 as int) + range_items(first as int, last + 1) + s.subrange(
            i2 as int,
            s.len() as int,
        ));
        assert forall|k: usize| #[trigger] out@.dom().contains(k) <==> set@.dom().contains(k)
            || span.contains(k) by {
            if out@.dom().contains(k) {
                assert(keyed::has_key(f, k));
                let x = choose|x: int| 0 <= x < f.len() && (#[trigger] f[x]).0 == k;
                if x < i1 {
                    assert(f[x] == s[x]);
                    assert(keyed::has_key(s, k));
                } else if x < head.len() {
                    assert(f[x] == range_items(first as int, last + 1)[x - i1]);
                } else {
                    assert(f[x] == s[i2 + (x - head.len())]);
                    assert(keyed::has_key(s, k));
                }
            }
            if set@.dom().contains(k) {
                assert(keyed::has_key(s, k));
                let j = choose|j: int| 0 <= j < s.len() && (#[trigger] s[j]).0 == k;
                if j < i1 {
                    assert(f[j] == s[j]);
                    assert(keyed::has_key(f, k));
                } else if j < i2 {
                    if i1 < s.len() && j > i1 {
                        assert(s[i1 as int].0 < s[j].0);
                    }
                    assert(first <= s[j].0 <= last);
                    assert(span.contains(k));
                } else {
                    assert(f[head.len() + (j - i2)] == s[j]);
                    assert(keyed::has_key(f, k));
                }
            }
            if span.contains(k) {
                let x = i1 + (k - first);
                assert(f[x] == range_items(first as int, last + 1)[k - first]);
                assert(keyed::has_key(f, k));
            }
        }
        assert(out@.dom() =~= set@.dom().union(span));
    }
    out
}

/// Dropping drafts never adds any.
proof fn lemma_kept_drafts_len(ds: Seq<Map<usize, Option<Seq<char>>>>, picked: Set<usize>, first: nat)
    ensures
        kept_drafts(ds, picked, first).len() <= ds.len(),
    decreases ds.len(),
{
    if ds.len() > 0 {
        lemma_kept_drafts_len(ds.drop_first(), picked, first + 1);
    }
}

/// The keys of `set`, in ascending order.
fn keys_of(set: &KeyedVec<()>) -> (r: Vec<usize>)
    requires
        set.wf(),
    ensures
        forall|i: int, j: int| 0 <= i < j < r@.len() ==> #[trigger] r@[i] < #[trigger] r@[j],
        forall|k: usize| #[trigger] set@.dom().contains(k) <==> r@.contains(k),
        r@.len() == set@.dom().len(),
{
    proof {
        set.lemma_items();
    }
    let items = set.entries();
    let ghost s = items@;
    let mut out: Vec<usize> = Vec::new();
    let mut i: usize = 0;
    while i < items.len()
        invariant
            items@ == s,
            keyed::ascending(s),
            i <= s.len(),
            out@.len() == i,
            forall|j: int| 0 <= j < i ==> out@[j] == (#[trigger] s[j]).0,
        decreases s.len() - i,
    {
        out.push(items[i].0);
        i = i + 1;
    }
    proof {
        assert forall|a: int, b: int| 0 <= a < b < out@.len() implies #[trigger] out@[a]
            < #[trigger] out@[b] by {
            assert(out@[a] == s[a].0 && out@[b] == s[b].0);
        }
        assert forall|k: usize| #[trigger] set@.dom().contains(k) <==> out@.contains(k) by {
            if set@.dom().contains(k) {
                assert(keyed::has_key(s, k));
                let j = choose|j: int| 0 <= j < s.len() && (#[trigger] s[j]).0 == k;
                assert(out@[j] == k);
            }
            if out@.contains(k) {
                let j = choose|j: int| 0 <= j < out@.len() && out@[j] == k;
                assert(s[j].0 == k);
                assert(keyed::has_key(s, k));
            }
        }
    }
    out
}

/// Writing a loaded row's edits away leaves every cell of it showing what it
/// showed, with nothing staged on it any more.
pub proof fn applying_keeps_what_is_shown(m: GridModel, row: usize, col: usize)
    requires
        m.source(row) is Some,
        m.source(row)->0 < m.rows.len(),
        col < m.rows[m.source(row)->0 as int].len(),
    ensures
        m.apply_row(m.source(row)->0).cell(row, col) == m.cell(row, col),
        !m.apply_row(m.source(row)->0).staged(row, col),
{
}

/// Picking a row twice, without extending, puts the selection back as it
/// was.
pub proof fn picking_twice_restores_the_selection(m: GridModel, row: usize)
    ensures
        m.pick(row, false).pick(row, false).picked == m.picked,
{
    assert(m.pick(row, false).pick(row, false).picked =~= m.picked);
}

/// Picking every row picks exactly the rows shown below the count given.
pub proof fn picking_all_picks_every_row(m: GridModel, rows: usize, row: usize)
    ensures
        m.pick_all(true, rows).picked.contains(row) <==> row < rows,
        !m.pick_all(false, rows).picked.contains(row),
{
}

/// A picked loaded row is marked by a delete and unmarked by a restore.
pub proof fn delete_marks_and_restore_unmarks(m: GridModel, row: usize)
    requires
        m.picked.contains(row),
        m.source(row) is Some,
    ensures
        m.set_deleted(true).deleted(row),
        !m.set_deleted(false).deleted(row),
{
    let s = m.source(row)->0;
    assert(m.picked_sources().contains(s));
}

/// A grid that was just given a result, or whose changes were all thrown
/// away, has nothing waiting to be written.
pub proof fn nothing_pending_after_discard_or_load(m: GridModel, result: QueryResult, editable: bool)
    ensures
        m.discarded().edited_rows() == Set::<usize>::empty(),
        m.discarded().drafts.len() == 0,
        m.discarded().deletions.len() == 0,
        GridModel::fresh(result, editable).edited_rows() == Set::<usize>::empty(),
        GridModel::fresh(result, editable).drafts.len() == 0,
        GridModel::fresh(result, editable).deletions.len() == 0,
{
    assert(m.discarded().edited_rows() =~= Set::<usize>::empty());
    assert(GridModel::fresh(result, editable).edited_rows() =~= Set::<usize>::empty());
}

/// The value a typed string stages: `NULL` in any ASCII case means SQL
/// `NULL` when `coerce` says so, and the text itself otherwise. Shared by
/// the cell editor and the value window, so the two agree.
pub fn staged_value(text: String, coerce: bool) -> (r: Cell)
    ensures
        text::opt_view(r) == staged_value_spec(text@, coerce),
{
    if coerce {
        let typed = chars_of(text.as_str());
        let null = chars_of("null");
        proof {
            reveal_strlit("null");
        }
        if chars_eq_ignore_case(&typed, &null) {
            return None;
        }
    }
    Some(text)
}

/// The row menu's delete item: `Delete row`, `Delete 3 rows`, `Restore
/// row`, `Restore 3 rows`.
pub fn delete_label(deleted: bool, rows: usize) -> (r: String)
    ensures
        r@ == delete_label_spec(deleted, rows as nat),
{
    if rows == 1 {
        return if deleted {
            String::from_str("Restore row")
        } else {
            String::from_str("Delete row")
        };
    }
    let mut r = if deleted {
        String::from_str("Restore ")
    } else {
        String::from_str("Delete ")
    };
    r.append(decimal_string(rows as u64).as_str());
    r.append(" rows");
    r
}

/// What the value window says under a value: a stand-in was never read
/// back, and a cell that cannot be typed into says so.
pub open spec fn view_note_spec(value: Option<Seq<char>>, editable: bool) -> Option<Seq<char>> {
    if query::is_description_opt(value) {
        Some("This value was not read back from the server."@)
    } else if !editable {
        Some("This value cannot be edited here."@)
    } else {
        None
    }
}

/// What the value window says under a value.
pub fn view_note(value: &Cell, editable: bool) -> (r: Option<&'static str>)
    ensures
        match r {
            Some(t) => view_note_spec(text::opt_view(*value), editable) == Some(t@),
            None => view_note_spec(text::opt_view(*value), editable) is None,
        },
{
    if is_placeholder(value) {
        Some("This value was not read back from the server.")
    } else if !editable {
        Some("This value cannot be edited here.")
    } else {
        None
    }
}

/// What saving the value window stages: nothing when the text is still
/// the one it opened with (so an untouched `NULL` stays `NULL` rather than
/// the four letters the window spelled it with), the typed value otherwise.
pub fn saved_value(typed: String, opened_with: &str, coerce: bool) -> (r: Option<Cell>)
    ensures
        match r {
            None => typed@ == opened_with@,
            Some(v) => typed@ != opened_with@ && text::opt_view(v) == staged_value_spec(typed@, coerce),
        },
{
    if text::chars_eq(&chars_of(typed.as_str()), &chars_of(opened_with)) {
        return None;
    }
    Some(staged_value(typed, coerce))
}

/// Opening the editor on a cell that holds text and finishing it without
/// typing anything leaves the cell showing what it showed (unless the text
/// is `null` and typed `null` means SQL `NULL`).
pub proof fn finishing_an_untouched_edit_keeps_the_cell(
    m: GridModel,
    row: usize,
    col: usize,
    coerce: bool,
)
    requires
        m.editable_cell(row, col),
        m.cell(row, col) is Some,
        !(coerce && text::eq_ignore_case(m.cell(row, col)->0, "null"@)),
    ensures
        m.editing_at(row, col).committed(m.cell(row, col)->0, coerce).cell(row, col) == m.cell(row, col),
{
}

/// The result a grid shows, and everything staged on top of it.
pub struct ResultDelegate {
    pub result: QueryResult,
    /// Source rows in display order. Sorting reorders this rather than the
    /// rows themselves, so the order the rows arrived in is never lost.
    pub order: Vec<usize>,
    /// Values typed into cells but not written yet, by source row, then
    /// column. Absent means unchanged.
    pub edits: KeyedVec<KeyedVec<Cell>>,
    /// Whether the owner can write this result back at all.
    pub editable: bool,
    /// Shown rows picked out for a row-level action.
    pub rows_selected: KeyedVec<()>,
    /// Row a sweep started on, so a shifted pick can take the range between.
    pub anchor: Option<usize>,
    /// Source rows marked for deletion. They stay on screen, struck through,
    /// until the owner writes them away.
    pub deletions: KeyedVec<()>,
    /// Rows the user is building by hand, each the cells typed into it so
    /// far. They sit after the result's own rows.
    pub drafts: Vec<KeyedVec<Cell>>,
    /// Cell the text editor is open on, in shown coordinates.
    pub editing: Option<(usize, usize)>,
    /// The row the keyboard is on, if any.
    pub focused_row: Option<usize>,
}

impl ResultDelegate {
    /// Whether every keyed collection is in order, and the shown rows can be
    /// counted in a `usize`.
    pub open spec fn wf(&self) -> bool {
        &&& self.edits.wf()
        &&& forall|s: usize| #[trigger] self.edits@.contains_key(s) ==> self.edits@[s].wf()
        &&& self.rows_selected.wf()
        &&& self.deletions.wf()
        &&& forall|d: int| 0 <= d < self.drafts@.len() ==> (#[trigger] self.drafts@[d]).wf()
        &&& self.order@.len() + self.drafts@.len() <= usize::MAX
    }

    /// The state as the specification sees it.
    pub open spec fn model(&self) -> GridModel {
        GridModel {
            columns: text::views(self.result.columns@),
            rows: self.result.rows@.map_values(|r: Vec<Cell>| row_view(r)),
            column_types: text::views(self.result.column_types@),
            order: self.order@,
            edits: Map::new(
                |k: (usize, usize)|
                    self.edits@.contains_key(k.0) && self.edits@[k.0]@.contains_key(k.1),
                |k: (usize, usize)| text::opt_view(self.edits@[k.0]@[k.1]),
            ),
            drafts: self.drafts@.map_values(|d: KeyedVec<Cell>| draft_view(d)),
            deletions: self.deletions@.dom(),
            picked: self.rows_selected@.dom(),
            anchor: self.anchor,
            editable: self.editable,
            editing: self.editing,
            focused: self.focused_row,
        }
    }

    /// How many rows are shown: the result's, then the drafts.
    pub fn rows(&self) -> (r: usize)
        requires
            self.wf(),
        ensures
            r == self.model().shown(),
    {
        self.order.len() + self.drafts.len()
    }

    /// The source row shown at `row_ix`; `None` for a draft row, which the
    /// server has never seen.
    pub fn source(&self, row_ix: usize) -> (r: Option<usize>)
        ensures
            r == self.model().source(row_ix),
    {
        if row_ix < self.order.len() {
            Some(self.order[row_ix])
        } else {
            None
        }
    }

    /// The draft shown at `row_ix`, if it is one.
    pub fn draft(&self, row_ix: usize) -> (r: Option<usize>)
        ensures
            match r {
                Some(d) => self.model().draft(row_ix) == Some(d as int),
                None => self.model().draft(row_ix) is None,
            },
    {
        if row_ix >= self.order.len() && row_ix - self.order.len() < self.drafts.len() {
            Some(row_ix - self.order.len())
        } else {
            None
        }
    }

    /// The value at source row `source`, column `col_ix`, as it was loaded.
    fn loaded(&self, source: usize, col_ix: usize) -> (r: Option<&String>)
        ensures
            ref_view(r) == self.model().loaded(source, col_ix),
    {
        if source < self.result.rows.len() && col_ix < self.result.rows[source].len() {
            proof {
                assert(self.model().rows[source as int] == row_view(self.result.rows@[source as int]));
            }
            match &self.result.rows[source][col_ix] {
                Some(s) => Some(s),
                None => None,
            }
        } else {
            None
        }
    }

    /// The value as it came from the server.
    pub fn baseline(&self, row_ix: usize, col_ix: usize) -> (r: Option<&String>)
        ensures
            ref_view(r) == self.model().baseline(row_ix, col_ix),
    {
        match self.source(row_ix) {
            Some(s) => self.loaded(s, col_ix),
            None => None,
        }
    }

    /// The value as it stands, staged edit included.
    pub fn cell(&self, row_ix: usize, col_ix: usize) -> (r: Option<&String>)
        requires
            self.wf(),
        ensures
            ref_view(r) == self.model().cell(row_ix, col_ix),
    {
        if let Some(d) = self.draft(row_ix) {
            proof {
                assert(self.drafts@[d as int].wf());
            }
            return match self.drafts[d].get(col_ix) {
                Some(Some(s)) => Some(s),
                _ => None,
            };
        }
        match self.source(row_ix) {
            Some(s) => match self.edits.get(s) {
                Some(inner) => match inner.get(col_ix) {
                    Some(Some(v)) => Some(v),
                    Some(None) => None,
                    None => self.loaded(s, col_ix),
                },
                None => self.loaded(s, col_ix),
            },
            None => None,
        }
    }

    /// Whether a draft row has nothing typed into this cell yet, so the
    /// server's own default is what it would be written with.
    pub fn is_untouched_draft(&self, row_ix: usize, col_ix: usize) -> (r: bool)
        requires
            self.wf(),
        ensures
            r == self.model().untouched_draft(row_ix, col_ix),
    {
        match self.draft(row_ix) {
            Some(d) => {
                proof {
                    assert(self.drafts@[d as int].wf());
                }
                !self.drafts[d].contains_key(col_ix)
            },
            None => false,
        }
    }

    /// Whether the row shown at `row_ix` is marked for deletion.
    pub fn is_deleted(&self, row_ix: usize) -> (r: bool)
        requires
            self.wf(),
        ensures
            r == self.model().deleted(row_ix),
    {
        match self.source(row_ix) {
            Some(s) => self.deletions.contains_key(s),
            None => false,
        }
    }

    /// Whether this cell holds a staged edit, or is a new row's typed value.
    pub fn is_staged(&self, row_ix: usize, col_ix: usize) -> (r: bool)
        requires
            self.wf(),
        ensures
            r == self.model().staged(row_ix, col_ix),
    {
        if let Some(d) = self.draft(row_ix) {
            proof {
                assert(self.drafts@[d as int].wf());
            }
            return self.drafts[d].contains_key(col_ix);
        }
        match self.source(row_ix) {
            Some(s) => match self.edits.get(s) {
                Some(inner) => inner.contains_key(col_ix),
                None => false,
            },
            None => false,
        }
    }

    /// Whether this cell can be typed into.
    ///
    /// A binary column and a value the driver could only describe (`<3
    /// bytes>`, `<XML>`) are shown but not held, so writing one back would
    /// lose it.
    pub fn is_editable(&self, row_ix: usize, col_ix: usize) -> (r: bool)
        requires
            self.wf(),
        ensures
            r == self.model().editable_cell(row_ix, col_ix),
    {
        if !self.editable {
            return false;
        }
        let binary = col_ix < self.result.column_types.len() && is_binary_type(
            self.result.column_types[col_ix].as_str(),
        );
        if binary {
            return false;
        }
        if self.draft(row_ix).is_some() {
            return true;
        }
        if self.is_deleted(row_ix) {
            return false;
        }
        self.source(row_ix).is_some() && !query::is_description_ref(self.baseline(row_ix, col_ix))
    }

    /// Stage `value` on a cell, or drop the edit when it matches the row as
    /// loaded, so typing a value back the way it was leaves nothing to write.
    /// A draft keeps what is typed: that is what its `INSERT` carries.
    pub fn stage(&mut self, row_ix: usize, col_ix: usize, value: Cell)
        requires
            old(self).wf(),
        ensures
            final(self).wf(),
            final(self).model() == old(self).model().stage(row_ix, col_ix, text::opt_view(value)),
    {
        let ghost before = self.model();
        let ghost v = text::opt_view(value);
        if let Some(d) = self.draft(row_ix) {
            proof {
                assert(self.drafts@[d as int].wf());
            }
            let mut draft = self.drafts.remove(d);
            draft.insert(col_ix, value);
            self.drafts.insert(d, draft);
            proof {
                assert forall|e: int| 0 <= e < self.drafts@.len() implies (
                #[trigger] self.drafts@[e]).wf() by {
                    if e != d {
                        assert(self.drafts@[e] == old(self).drafts@[e]);
                    }
                }
                assert(self.drafts@.len() == old(self).drafts@.len());
                assert(draft_view(self.drafts@[d as int]) =~= before.drafts[d as int].insert(col_ix, v));
                assert(self.model().drafts =~= before.drafts.update(
                    d as int,
                    before.drafts[d as int].insert(col_ix, v),
                ));
                assert(self.model() =~= before.stage(row_ix, col_ix, v));
            }
            return;
        }
        let source = match self.source(row_ix) {
            Some(s) => s,
            None => {
                return;
            },
        };
        let same = match (self.loaded(source, col_ix), &value) {
            (Some(a), Some(b)) => *a == *b,
            (None, None) => true,
            _ => false,
        };
        if same {
            match self.edits.remove(source) {
                Some(inner) => {
                    let mut inner = inner;
                    inner.remove(col_ix);
                    self.edits.insert(source, inner);
                },
                None => {},
            }
            proof {
                assert forall|s: usize| #[trigger] self.edits@.contains_key(s) implies self.edits@[
                s].wf() by {
                    if s != source {
                        assert(old(self).edits@.contains_key(s));
                    }
                }
                assert(self.model().edits =~= before.edits.remove((source, col_ix)));
                assert(self.model() =~= before.stage(row_ix, col_ix, v));
            }
            return;
        }
        let mut inner = match self.edits.remove(source) {
            Some(m) => m,
            None => KeyedVec::new(),
        };
        inner.insert(col_ix, value);
        self.edits.insert(source, inner);
        proof {
            assert forall|s: usize| #[trigger] self.edits@.contains_key(s) implies self.edits@[
            s].wf() by {
                if s != source {
                    assert(old(self).edits@.contains_key(s));
                }
            }
            assert(self.model().edits =~= before.edits.insert((source, col_ix), v));
            assert(self.model() =~= before.stage(row_ix, col_ix, v));
        }
    }

    /// Take a cell's staged value back: a loaded cell returns to what the
    /// server has, and a new row's cell goes back to the server's default.
    pub fn reset_cell(&mut self, row_ix: usize, col_ix: usize)
        requires
            old(self).wf(),
        ensures
            final(self).wf(),
            final(self).model() == old(self).model().reset(row_ix, col_ix),
    {
        let ghost before = self.model();
        if let Some(d) = self.draft(row_ix) {
            proof {
                assert(self.drafts@[d as int].wf());
            }
            let mut draft = self.drafts.remove(d);
            draft.remove(col_ix);
            self.drafts.insert(d, draft);
            proof {
                assert forall|e: int| 0 <= e < self.drafts@.len() implies (
                #[trigger] self.drafts@[e]).wf() by {
                    if e != d {
                        assert(self.drafts@[e] == old(self).drafts@[e]);
                    }
                }
                assert(self.drafts@.len() == old(self).drafts@.len());
                assert(draft_view(self.drafts@[d as int]) =~= before.drafts[d as int].remove(col_ix));
                assert(self.model().drafts =~= before.drafts.update(
                    d as int,
                    before.drafts[d as int].remove(col_ix),
                ));
                assert(self.model() =~= before.reset(row_ix, col_ix));
            }
        } else if let Some(source) = self.source(row_ix) {
            match self.edits.remove(source) {
                Some(inner) => {
                    let mut inner = inner;
                    inner.remove(col_ix);
                    self.edits.insert(source, inner);
                },
                None => {},
            }
            proof {
                assert forall|s: usize| #[trigger] self.edits@.contains_key(s) implies self.edits@[
                s].wf() by {
                    if s != source {
                        assert(old(self).edits@.contains_key(s));
                    }
                }
                assert(self.model().edits =~= before.edits.remove((source, col_ix)));
                assert(self.model() =~= before.reset(row_ix, col_ix));
            }
        }
    }

    /// Throw every staged edit, every row being built, and every deletion
    /// mark away, and close the editor.
    pub fn discard(&mut self)
        requires
            old(self).wf(),
        ensures
            final(self).wf(),
            final(self).model() == old(self).model().discarded(),
    {
        let ghost before = self.model();
        self.edits.clear();
        self.editing = None;
        self.drafts.clear();
        self.deletions.clear();
        proof {
            assert(self.model().edits =~= Map::<(usize, usize), Option<Seq<char>>>::empty());
            assert(self.model().drafts =~= Seq::<Map<usize, Option<Seq<char>>>>::empty());
            assert(self.model().deletions =~= Set::<usize>::empty());
            assert(self.model() =~= before.discarded());
        }
    }

    /// Take `row_ix` in or put it back; with `extend`, take every row between
    /// it and the last one picked.
    pub fn pick(&mut self, row_ix: usize, extend: bool)
        requires
            old(self).wf(),
        ensures
            final(self).wf(),
            final(self).model() == old(self).model().pick(row_ix, extend),
    {
        let ghost before = self.model();
        if extend {
            if let Some(anchor) = self.anchor {
                let (first, last) = if anchor <= row_ix {
                    (anchor, row_ix)
                } else {
                    (row_ix, anchor)
                };
                self.rows_selected = with_span(&self.rows_selected, first, last);
                proof {
                    assert(self.model().picked =~= before.picked.union(GridModel::span(first, last)));
                    assert(self.model() =~= before.pick(row_ix, extend));
                }
                return;
            }
        }
        if self.rows_selected.contains_key(row_ix) {
            self.rows_selected.remove(row_ix);
            proof {
                assert(self.model().picked =~= before.picked.remove(row_ix));
            }
        } else {
            self.rows_selected.insert(row_ix, ());
            proof {
                assert(self.model().picked =~= before.picked.insert(row_ix));
            }
        }
        self.anchor = Some(row_ix);
        proof {
            assert(self.model() =~= before.pick(row_ix, extend));
        }
    }

    /// Take `row_ix` into the selection if it is outside it, and say how many
    /// rows the menu is then about.
    pub fn mark_for_menu(&mut self, row_ix: usize) -> (r: usize)
        requires
            old(self).wf(),
        ensures
            final(self).wf(),
            final(self).model() == old(self).model().mark_for_menu(row_ix),
            r == final(self).model().picked.len(),
    {
        let ghost before = self.model();
        if !self.rows_selected.contains_key(row_ix) {
            let mut one: KeyedVec<()> = KeyedVec::new();
            one.insert(row_ix, ());
            self.rows_selected = one;
            self.anchor = Some(row_ix);
            proof {
                assert(self.model().picked =~= set![row_ix]);
            }
        }
        proof {
            assert(self.model() =~= before.mark_for_menu(row_ix));
        }
        self.rows_selected.len()
    }

    /// Pick every one of the first `rows` rows, or none of them.
    pub fn pick_all(&mut self, all: bool, rows: usize)
        requires
            old(self).wf(),
        ensures
            final(self).wf(),
            final(self).model() == old(self).model().pick_all(all, rows),
    {
        let ghost before = self.model();
        let empty: KeyedVec<()> = KeyedVec::new();
        if all && rows > 0 {
            self.rows_selected = with_span(&empty, 0, rows - 1);
        } else {
            self.rows_selected = empty;
        }
        self.anchor = None;
        proof {
            assert(self.model().picked =~= before.pick_all(all, rows).picked);
            assert(self.model() =~= before.pick_all(all, rows));
        }
    }

    /// Forget which rows were picked out.
    pub fn clear_row_selection(&mut self)
        requires
            old(self).wf(),
        ensures
            final(self).wf(),
            final(self).model() == old(self).model().unpicked(),
    {
        let ghost before = self.model();
        if self.rows_selected.is_empty() {
            return;
        }
        self.rows_selected.clear();
        self.anchor = None;
        proof {
            assert(self.model().picked =~= Set::<usize>::empty());
            assert(self.model() =~= before.unpicked());
        }
    }

    /// The picked rows, in ascending order.
    pub fn picked_rows(&self) -> (r: Vec<usize>)
        requires
            self.wf(),
        ensures
            forall|i: int, j: int| 0 <= i < j < r@.len() ==> #[trigger] r@[i] < #[trigger] r@[j],
            forall|k: usize| #[trigger] self.model().picked.contains(k) <==> r@.contains(k),
    {
        keys_of(&self.rows_selected)
    }

    /// Mark every picked row for deletion, or take the mark off again.
    ///
    /// A row being built by hand is not in the result, so it is dropped
    /// outright rather than marked.
    pub fn set_deleted(&mut self, deleted: bool)
        requires
            old(self).wf(),
        ensures
            final(self).wf(),
            final(self).model() == old(self).model().set_deleted(deleted),
    {
        let ghost before = self.model();
        let rows = self.picked_rows();
        let mut i: usize = 0;
        while i < rows.len()
            invariant
                self.wf(),
                self.result == old(self).result,
                self.order == old(self).order,
                self.edits == old(self).edits,
                self.editable == old(self).editable,
                self.rows_selected == old(self).rows_selected,
                self.anchor == old(self).anchor,
                self.drafts == old(self).drafts,
                self.editing == old(self).editing,
                self.focused_row == old(self).focused_row,
                before == old(self).model(),
                i <= rows@.len(),
                forall|k: usize| #[trigger] before.picked.contains(k) <==> rows@.contains(k),
                self.model().deletions == (if deleted {
                    before.deletions.union(
                        Set::new(
                            |s: usize|
                                exists|j: int|
                                    0 <= j < i && before.source(#[trigger] rows@[j]) == Some(s),
                        ),
                    )
                } else {
                    before.deletions.difference(
                        Set::new(
                            |s: usize|
                                exists|j: int|
                                    0 <= j < i && before.source(#[trigger] rows@[j]) == Some(s),
                        ),
                    )
                }),
            decreases rows@.len() - i,
        {
            let ghost prev = self.model().deletions;
            let row = rows[i];
            match self.source(row) {
                Some(s) => {
                    if deleted {
                        self.deletions.insert(s, ());
                        proof {
                            assert(self.model().deletions =~= prev.insert(s));
                        }
                    } else {
                        self.deletions.remove(s);
                        proof {
                            assert(self.model().deletions =~= prev.remove(s));
                        }
                    }
                },
                None => {},
            }
            proof {
                let next = Set::new(
                    |s: usize| exists|j: int| 0 <= j < i + 1 && before.source(#[trigger] rows@[j]) == Some(s),
                );
                let cur = Set::new(
                    |s: usize| exists|j: int| 0 <= j < i && before.source(#[trigger] rows@[j]) == Some(s),
                );
                assert forall|s: usize| #[trigger] next.contains(s) <==> cur.contains(s) || before.source(
                    rows@[i as int],
                ) == Some(s) by {
                    if next.contains(s) {
                        let j = choose|j: int| 0 <= j < i + 1 && before.source(#[trigger] rows@[j]) == Some(s);
                        if j < i {
                            assert(cur.contains(s));
                        }
                    }
                }
                if deleted {
                    assert(self.model().deletions =~= before.deletions.union(next));
                } else {
                    assert(self.model().deletions =~= before.deletions.difference(next));
                }
            }
            i = i + 1;
        }
        proof {
            let all = Set::new(
                |s: usize| exists|j: int| 0 <= j < rows@.len() && before.source(#[trigger] rows@[j]) == Some(s),
            );
            assert forall|s: usize| #[trigger] all.contains(s) <==> before.picked_sources().contains(s) by {
                if all.contains(s) {
                    let j = choose|j: int| 0 <= j < rows@.len() && before.source(#[trigger] rows@[j]) == Some(s);
                    assert(rows@.contains(rows@[j]));
                    assert(before.picked.contains(rows@[j]));
                }
                if before.picked_sources().contains(s) {
                    let r = choose|r: usize| #[trigger] before.picked.contains(r) && before.source(r) == Some(s);
                    assert(rows@.contains(r));
                    let j = choose|j: int| 0 <= j < rows@.len() && rows@[j] == r;
                    assert(before.source(rows@[j]) == Some(s));
                }
            }
            assert(all =~= before.picked_sources());
        }
        if !deleted {
            proof {
                assert(self.model() =~= before.set_deleted(deleted));
            }
            return;
        }
        let ghost marked = self.model();
        let base = self.order.len();
        let mut d = self.drafts.len();
        proof {
            assert(before.drafts.skip(d as int) =~= Seq::<Map<usize, Option<Seq<char>>>>::empty());
            assert(before.drafts.take(d as int) =~= before.drafts);
            assert(marked.drafts =~= before.drafts.take(d as int) + kept_drafts(
                before.drafts.skip(d as int),
                before.picked,
                (base + d) as nat,
            ));
        }
        while d > 0
            invariant
                self.result == old(self).result,
                self.order == old(self).order,
                self.edits == old(self).edits,
                self.editable == old(self).editable,
                self.rows_selected == old(self).rows_selected,
                self.anchor == old(self).anchor,
                self.editing == old(self).editing,
                self.focused_row == old(self).focused_row,
                old(self).wf(),
                self.deletions.wf(),
                self.model().deletions == marked.deletions,
                before == old(self).model(),
                base == self.order@.len(),
                d <= self.drafts@.len(),
                d <= before.drafts.len(),
                base + before.drafts.len() <= usize::MAX,
                self.rows_selected.wf(),
                forall|e: int| 0 <= e < self.drafts@.len() ==> (#[trigger] self.drafts@[e]).wf(),
                self.model().drafts == before.drafts.take(d as int) + kept_drafts(
                    before.drafts.skip(d as int),
                    before.picked,
                    (base + d) as nat,
                ),
            decreases d,
        {
            d = d - 1;
            let ghost prev = self.drafts@;
            let ghost rest = kept_drafts(before.drafts.skip(d + 1), before.picked, (base + d + 1) as nat);
            proof {
                assert(before.drafts.skip(d as int).drop_first() =~= before.drafts.skip(d + 1));
                assert(before.drafts.skip(d as int)[0] == before.drafts[d as int]);
                assert(before.drafts.take(d + 1) =~= before.drafts.take(d as int).push(
                    before.drafts[d as int],
                ));
            }
            let ghost prev_model = self.model().drafts;
            if self.rows_selected.contains_key(base + d) {
                proof {
                    assert(before.picked.contains((base + d) as usize));
                    assert(kept_drafts(before.drafts.skip(d as int), before.picked, (base + d) as nat)
                        == rest);
                    assert(prev_model =~= before.drafts.take(d as int).push(before.drafts[d as int])
                        + rest);
                }
                self.drafts.remove(d);
                proof {
                    assert(self.model().drafts =~= prev_model.remove(d as int));
                    assert(self.model().drafts =~= before.drafts.take(d as int) + rest);
                    assert forall|e: int| 0 <= e < self.drafts@.len() implies (
                    #[trigger] self.drafts@[e]).wf() by {
                        if e < d {
                            assert(self.drafts@[e] == prev[e]);
                        } else {
                            assert(self.drafts@[e] == prev[e + 1]);
                        }
                    }
                }
            } else {
                proof {
                    assert(self.model().drafts =~= before.drafts.take(d as int) + (seq![
                        before.drafts[d as int],
                    ] + rest));
                }
            }
        }
        proof {
            assert(before.drafts.take(0) =~= Seq::<Map<usize, Option<Seq<char>>>>::empty());
            assert(before.drafts.skip(0) =~= before.drafts);
            assert(self.model().drafts =~= kept_drafts(before.drafts, before.picked, base as nat));
            assert(self.drafts@.len() == self.model().drafts.len());
            lemma_kept_drafts_len(before.drafts, before.picked, base as nat);
        }
        let remaining = base + self.drafts.len();
        proof {
            self.rows_selected.lemma_items();
        }
        let (kept, _) = keys_below(self.rows_selected.entries(), remaining);
        let ghost items = old(self).rows_selected.items();
        proof {
            kept.lemma_items();
            assert forall|k: usize| #[trigger] kept@.dom().contains(k) <==> (before.picked.contains(k)
                && k < remaining) by {
                if kept@.dom().contains(k) {
                    let j = choose|j: int| 0 <= j < kept.items().len() && (#[trigger] kept.items()[j]).0 == k;
                    assert(kept.items()[j] == items[j]);
                    assert(keyed::has_key(items, k));
                }
                if before.picked.contains(k) && k < remaining {
                    assert(keyed::has_key(items, k));
                    let j = choose|j: int| 0 <= j < items.len() && (#[trigger] items[j]).0 == k;
                    if j >= kept.items().len() {
                        let p = kept.items().len() as int;
                        if j > p {
                            assert(items[p].0 < items[j].0);
                        }
                    }
                    assert(kept.items()[j] == items[j]);
                    assert(keyed::has_key(kept.items(), k));
                }
            }
        }
        self.rows_selected = kept;
        self.anchor = match self.anchor {
            Some(a) => if a < remaining {
                Some(a)
            } else {
                None
            },
            None => None,
        };
        proof {
            assert(self.model().picked =~= Set::new(
                |r: usize| before.picked.contains(r) && r < remaining,
            ));
            assert(self.model() =~= before.set_deleted(deleted));
        }
    }

    /// The cells of `m` in ascending column order.
    fn cells_of(m: &KeyedVec<Cell>) -> (r: Vec<(usize, Cell)>)
        requires
            m.wf(),
        ensures
            lists_cells(cells_view(r@), m@.map_values(|c: Cell| text::opt_view(c))),
            r@.len() == m@.dom().len(),
    {
        proof {
            m.lemma_items();
        }
        let items = m.entries();
        let ghost s = items@;
        let mut out: Vec<(usize, Cell)> = Vec::new();
        let mut i: usize = 0;
        while i < items.len()
            invariant
                items@ == s,
                keyed::ascending(s),
                i <= s.len(),
                out@.len() == i,
                forall|j: int| 0 <= j < i ==> (#[trigger] out@[j]).0 == s[j].0 && text::opt_view(out@[j].1)
                    == text::opt_view(s[j].1),
            decreases s.len() - i,
        {
            let (k, v) = &items[i];
            out.push((*k, copy_cell(v)));
            i = i + 1;
        }
        proof {
            let cv = cells_view(out@);
            let mv = m@.map_values(|c: Cell| text::opt_view(c));
            assert forall|a: int, b: int| 0 <= a < b < cv.len() implies #[trigger] cv[a].0 < #[trigger] cv[b].0 by {
                assert(cv[a].0 == s[a].0 && cv[b].0 == s[b].0);
            }
            assert forall|a: int| 0 <= a < cv.len() implies mv.contains_key(#[trigger] cv[a].0) && mv[cv[a].0] == cv[a].1 by {
                assert(cv[a].0 == s[a].0);
                assert(m@.contains_key(s[a].0));
            }
            assert forall|c: usize| #[trigger] mv.contains_key(c) implies exists|a: int| 0 <= a < cv.len() && (#[trigger] cv[a]).0 == c by {
                assert(keyed::has_key(s, c));
                let j = choose|j: int| 0 <= j < s.len() && (#[trigger] s[j]).0 == c;
                assert(cv[j].0 == c);
            }
        }
        out
    }

    /// Edits waiting to be written, by source row, in row order, each with
    /// its cells in column order.
    #[verifier::rlimit(40)]
    pub fn staged(&self) -> (r: Vec<StagedRow>)
        requires
            self.wf(),
        ensures
            self.model().lists_staged(r@.map_values(|x: StagedRow| staged_row_view(x))),
    {
        proof {
            self.edits.lemma_items();
        }
        let items = self.edits.entries();
        let ghost s = items@;
        let ghost m = self.model();
        let mut out: Vec<StagedRow> = Vec::new();
        let mut i: usize = 0;
        while i < items.len()
            invariant
                items@ == s,
                m == self.model(),
                self.wf(),
                keyed::ascending(s),
                forall|j: int| 0 <= j < s.len() ==> self.edits@.contains_key(#[trigger] s[j].0)
                    && self.edits@[s[j].0] == s[j].1,
                forall|k: usize| #[trigger] self.edits@.contains_key(k) <==> keyed::has_key(s, k),
                i <= s.len(),
                forall|a: int, b: int| 0 <= a < b < out@.len() ==> #[trigger] out@[a].row < #[trigger] out@[b].row,
                forall|a: int| 0 <= a < out@.len() ==> exists|j: int| 0 <= j < i && (#[trigger] out@[a]).row == s[j].0,
                forall|a: int| 0 <= a < out@.len() ==> m.edited_rows().contains(#[trigger] out@[a].row)
                    && lists_cells(cells_view(out@[a].cells@), m.row_edits(out@[a].row)),
                forall|j: int| 0 <= j < i && m.edited_rows().contains(#[trigger] s[j].0) ==> exists|a: int|
                    0 <= a < out@.len() && (#[trigger] out@[a]).row == s[j].0,
            decreases s.len() - i,
        {
            let (row, inner) = &items[i];
            let ghost prev = out@;
            proof {
                assert(self.edits@[s[i as int].0].wf());
            }
            let ghost rv = m.row_edits(*row);
            proof {
                inner.lemma_items();
                assert(rv =~= inner@.map_values(|c: Cell| text::opt_view(c)));
            }
            if !inner.is_empty() {
                let cells = Self::cells_of(inner);
                out.push(StagedRow { row: *row, cells });
                proof {
                    let c = inner@.dom().choose();
                    assert(inner@.dom().contains(c));
                    assert(m.edits.contains_key((*row, c)));
                    assert(m.edited_rows().contains(*row));
                    assert forall|a: int, b: int| 0 <= a < b < out@.len() implies #[trigger] out@[a].row
                        < #[trigger] out@[b].row by {
                        if b == out@.len() - 1 && a < b {
                            let j = choose|j: int| 0 <= j < i && (#[trigger] out@[a]).row == s[j].0;
                            assert(s[j].0 < s[i as int].0);
                        } else {
                            assert(out@[a] == prev[a] && out@[b] == prev[b]);
                        }
                    }
                    assert forall|a: int| 0 <= a < out@.len() implies exists|j: int| 0 <= j < i + 1 && (#[trigger] out@[a]).row == s[j].0 by {
                        if a < prev.len() {
                            assert(out@[a] == prev[a]);
                        } else {
                            assert(out@[a].row == s[i as int].0);
                        }
                    }
                    assert forall|a: int| 0 <= a < out@.len() implies m.edited_rows().contains(#[trigger] out@[a].row)
                        && lists_cells(cells_view(out@[a].cells@), m.row_edits(out@[a].row)) by {
                        if a < prev.len() {
                            assert(out@[a] == prev[a]);
                        }
                    }
                    assert forall|j: int| 0 <= j < i + 1 && m.edited_rows().contains(#[trigger] s[j].0) implies exists|a: int|
                        0 <= a < out@.len() && (#[trigger] out@[a]).row == s[j].0 by {
                        if j < i {
                            let a = choose|a: int| 0 <= a < prev.len() && (#[trigger] prev[a]).row == s[j].0;
                            assert(out@[a] == prev[a]);
                        } else {
                            assert(out@[out@.len() - 1].row == s[j].0);
                        }
                    }
                }
            } else {
                proof {
                    assert(!m.edited_rows().contains(s[i as int].0)) by {
                        if m.edited_rows().contains(s[i as int].0) {
                            let c = choose|c: usize| #[trigger] m.edits.contains_key((s[i as int].0, c));
                            assert(inner@.contains_key(c));
                            assert(inner@.dom().contains(c));
                            assert(inner@.dom().len() > 0);
                        }
                    }
                }
            }
            i = i + 1;
        }
        proof {
            let v = out@.map_values(|x: StagedRow| staged_row_view(x));
            assert forall|i: int, j: int| 0 <= i < j < v.len() implies #[trigger] v[i].0 < #[trigger] v[j].0 by {
                assert(v[i].0 == out@[i].row && v[j].0 == out@[j].row);
            }
            assert forall|a: int| 0 <= a < v.len() implies m.edited_rows().contains(#[trigger] v[a].0)
                && lists_cells(v[a].1, m.row_edits(v[a].0)) by {
                assert(v[a] == staged_row_view(out@[a]));
            }
            assert forall|r: usize| #[trigger] m.edited_rows().contains(r) implies exists|a: int|
                0 <= a < v.len() && (#[trigger] v[a]).0 == r by {
                let c = choose|c: usize| #[trigger] m.edits.contains_key((r, c));
                assert(self.edits@.contains_key(r));
                assert(keyed::has_key(s, r));
                let j = choose|j: int| 0 <= j < s.len() && (#[trigger] s[j]).0 == r;
                let a = choose|a: int| 0 <= a < out@.len() && (#[trigger] out@[a]).row == s[j].0;
                assert(v[a].0 == r);
            }
        }
        out
    }

    /// Source rows marked for deletion, in ascending order.
    pub fn deletions(&self) -> (r: Vec<usize>)
        requires
            self.wf(),
        ensures
            forall|i: int, j: int| 0 <= i < j < r@.len() ==> #[trigger] r@[i] < #[trigger] r@[j],
            forall|k: usize| #[trigger] self.model().deletions.contains(k) <==> r@.contains(k),
    {
        keys_of(&self.deletions)
    }

    /// The rows being built by hand, each the cells typed into it in column
    /// order. A column nobody typed into is absent, so the `INSERT` can leave
    /// it out and let the server put its own default there.
    pub fn drafts(&self) -> (r: Vec<Vec<(usize, Cell)>>)
        requires
            self.wf(),
        ensures
            r@.len() == self.model().drafts.len(),
            forall|d: int|
                0 <= d < r@.len() ==> lists_cells(
                    cells_view(#[trigger] r@[d]@),
                    self.model().drafts[d],
                ),
    {
        let mut out: Vec<Vec<(usize, Cell)>> = Vec::new();
        let mut d: usize = 0;
        while d < self.drafts.len()
            invariant
                self.wf(),
                d <= self.drafts@.len(),
                out@.len() == d,
                forall|e: int|
                    0 <= e < d ==> lists_cells(cells_view(#[trigger] out@[e]@), self.model().drafts[e]),
            decreases self.drafts@.len() - d,
        {
            proof {
                assert(self.drafts@[d as int].wf());
            }
            out.push(Self::cells_of(&self.drafts[d]));
            d = d + 1;
        }
        out
    }

    /// Whether source row `row` has staged edits.
    pub fn row_has_edits(&self, row: usize) -> (r: bool)
        requires
            self.wf(),
        ensures
            r == self.model().edited_rows().contains(row),
    {
        match self.edits.get(row) {
            Some(inner) => {
                proof {
                    inner.lemma_items();
                    if inner@.dom().len() > 0 {
                        let c = inner@.dom().choose();
                        assert(inner@.dom().contains(c));
                        assert(self.model().edits.contains_key((row, c)));
                    } else {
                        if self.model().edited_rows().contains(row) {
                            let c = choose|c: usize| #[trigger] self.model().edits.contains_key((row, c));
                            assert(inner@.dom().contains(c));
                        }
                    }
                }
                !inner.is_empty()
            },
            None => {
                proof {
                    if self.model().edited_rows().contains(row) {
                        let c = choose|c: usize| #[trigger] self.model().edits.contains_key((row, c));
                    }
                }
                false
            },
        }
    }

    /// The changes waiting to be written, counted the way they are shown:
    /// edited rows not marked for deletion, new rows, deleted rows.
    pub fn pending_counts(&self) -> (r: (usize, usize, usize))
        requires
            self.wf(),
        ensures
            r.0 == self.model().edited_rows().difference(self.model().deletions).len(),
            r.1 == self.model().drafts.len(),
            r.2 == self.model().deletions.len(),
    {
        proof {
            self.edits.lemma_items();
        }
        let items = self.edits.entries();
        let ghost s = items@;
        let ghost m = self.model();
        let mut edited: usize = 0;
        let mut i: usize = 0;
        let ghost mut counted: Set<usize> = Set::empty();
        while i < items.len()
            invariant
                items@ == s,
                m == self.model(),
                self.wf(),
                keyed::ascending(s),
                forall|j: int| 0 <= j < s.len() ==> self.edits@.contains_key(#[trigger] s[j].0)
                    && self.edits@[s[j].0] == s[j].1,
                i <= s.len(),
                edited <= i,
                counted.finite(),
                counted.len() == edited,
                forall|r: usize| #[trigger] counted.contains(r) <==> (exists|j: int| 0 <= j < i && (#[trigger] s[j]).0 == r)
                    && m.edited_rows().contains(r) && !m.deletions.contains(r),
            decreases s.len() - i,
        {
            let row = items[i].0;
            let has = self.row_has_edits(row);
            let gone = self.deletions.contains_key(row);
            let ghost prev = counted;
            if has && !gone {
                edited = edited + 1;
                proof {
                    assert(!prev.contains(row)) by {
                        if prev.contains(row) {
                            let j = choose|j: int| 0 <= j < i && (#[trigger] s[j]).0 == row;
                            assert(s[j].0 < s[i as int].0);
                        }
                    }
                    counted = prev.insert(row);
                }
            }
            proof {
                assert forall|r: usize| #[trigger] counted.contains(r) <==> (exists|j: int| 0 <= j < i + 1 && (#[trigger] s[j]).0 == r)
                    && m.edited_rows().contains(r) && !m.deletions.contains(r) by {
                    if (exists|j: int| 0 <= j < i + 1 && (#[trigger] s[j]).0 == r) && r != row {
                        let j = choose|j: int| 0 <= j < i + 1 && (#[trigger] s[j]).0 == r;
                        assert(j < i);
                    }
                    if r == row {
                        assert(s[i as int].0 == r);
                    }
                }
            }
            i = i + 1;
        }
        proof {
            let target = m.edited_rows().difference(m.deletions);
            assert forall|r: usize| #[trigger] counted.contains(r) <==> target.contains(r) by {
                if target.contains(r) {
                    let c = choose|c: usize| #[trigger] m.edits.contains_key((r, c));
                    assert(self.edits@.contains_key(r));
                    assert(keyed::has_key(s, r));
                }
            }
            assert(counted =~= target);
        }
        (edited, self.drafts.len(), self.deletions.len())
    }

    /// Whether the row shown at `row_ix` is loaded, being built, or on its
    /// way out; `None` past the last row shown.
    pub fn row_status(&self, row_ix: usize) -> (r: Option<RowStatus>)
        requires
            self.wf(),
        ensures
            r == (if row_ix >= self.model().shown() {
                None
            } else if self.model().draft(row_ix) is Some {
                Some(RowStatus::Draft)
            } else if self.model().deleted(row_ix) {
                Some(RowStatus::Deleted)
            } else {
                Some(RowStatus::Loaded)
            }),
    {
        if row_ix >= self.rows() {
            return None;
        }
        Some(
            if self.draft(row_ix).is_some() {
                RowStatus::Draft
            } else if self.is_deleted(row_ix) {
                RowStatus::Deleted
            } else {
                RowStatus::Loaded
            },
        )
    }

    /// The row as it stands, staged edits and draft values included; `None`
    /// past the last row shown.
    pub fn row_cells(&self, row_ix: usize) -> (r: Option<Vec<Cell>>)
        requires
            self.wf(),
        ensures
            match r {
                None => row_ix >= self.model().shown(),
                Some(v) => row_ix < self.model().shown() && v@.len() == self.model().columns.len()
                    && forall|c: int|
                    0 <= c < v@.len() ==> text::opt_view(#[trigger] v@[c]) == self.model().cell(
                        row_ix,
                        c as usize,
                    ),
            },
    {
        if row_ix >= self.rows() {
            return None;
        }
        let n = self.result.columns.len();
        let mut out: Vec<Cell> = Vec::new();
        let mut c: usize = 0;
        while c < n
            invariant
                self.wf(),
                n == self.result.columns@.len(),
                c <= n,
                out@.len() == c,
                forall|k: int|
                    0 <= k < c ==> text::opt_view(#[trigger] out@[k]) == self.model().cell(
                        row_ix,
                        k as usize,
                    ),
            decreases n - c,
        {
            let v = match self.cell(row_ix, c) {
                Some(t) => Some(t.clone()),
                None => None,
            };
            out.push(v);
            c = c + 1;
        }
        Some(out)
    }

    /// Source row `row` as it was loaded, untouched by staged edits.
    pub fn baseline_row(&self, row: usize) -> (r: Option<Vec<Cell>>)
        ensures
            match r {
                None => row >= self.model().rows.len(),
                Some(v) => row < self.model().rows.len() && row_view(v) == self.model().rows[row as int],
            },
    {
        if row >= self.result.rows.len() {
            return None;
        }
        let source = &self.result.rows[row];
        let mut out: Vec<Cell> = Vec::new();
        let mut c: usize = 0;
        while c < source.len()
            invariant
                c <= source@.len(),
                out@.len() == c,
                forall|k: int| 0 <= k < c ==> text::opt_view(#[trigger] out@[k]) == text::opt_view(source@[k]),
            decreases source@.len() - c,
        {
            out.push(copy_cell(&source[c]));
            c = c + 1;
        }
        proof {
            assert(row_view(out) =~= row_view(*source));
        }
        Some(out)
    }

    /// A grid showing `result` in the order its rows came, with nothing
    /// staged.
    pub fn new(result: QueryResult, editable: bool) -> (r: Self)
        ensures
            r.wf(),
            r.result == result,
            r.model() == GridModel::fresh(result, editable),
    {
        let n = result.rows.len();
        let mut order: Vec<usize> = Vec::new();
        let mut i: usize = 0;
        while i < n
            invariant
                i <= n,
                order@ == Seq::new(i as nat, |k: int| k as usize),
            decreases n - i,
        {
            order.push(i);
            i = i + 1;
            assert(order@ =~= Seq::new(i as nat, |k: int| k as usize));
        }
        let r = ResultDelegate {
            result,
            order,
            edits: KeyedVec::new(),
            editable,
            rows_selected: KeyedVec::new(),
            anchor: None,
            deletions: KeyedVec::new(),
            drafts: Vec::new(),
            editing: None,
            focused_row: None,
        };
        proof {
            assert(r.model().edits =~= Map::<(usize, usize), Option<Seq<char>>>::empty());
            assert(r.model().drafts =~= Seq::<Map<usize, Option<Seq<char>>>>::empty());
            assert(r.model().deletions =~= Set::<usize>::empty());
            assert(r.model().picked =~= Set::<usize>::empty());
            assert(r.model() =~= GridModel::fresh(result, editable));
        }
        r
    }

    /// Show `result`: new rows mean the staged ones are gone, so paging,
    /// sorting and refreshing all throw unwritten changes and the selection
    /// away.
    pub fn set_result(&mut self, result: QueryResult)
        ensures
            final(self).wf(),
            final(self).result == result,
            final(self).model() == GridModel::fresh(result, old(self).editable),
    {
        *self = Self::new(result, self.editable);
    }

    /// Show nothing: no columns, no rows, and so nothing staged or picked,
    /// as after a statement that failed.
    pub fn clear(&mut self)
        ensures
            final(self).wf(),
            final(self).result.columns@.len() == 0,
            final(self).result.column_types@.len() == 0,
            final(self).result.rows@.len() == 0,
            final(self).model() == GridModel::fresh(final(self).result, old(self).editable),
    {
        self.set_result(QueryResult { columns: Vec::new(), column_types: Vec::new(), rows: Vec::new() });
    }

    /// Allow writing or not; taking it away throws every staged change away.
    pub fn set_editable(&mut self, editable: bool)
        requires
            old(self).wf(),
        ensures
            final(self).wf(),
            final(self).model() == old(self).model().with_editable(editable),
    {
        let ghost before = self.model();
        if self.editable == editable {
            return;
        }
        self.editable = editable;
        self.editing = None;
        if !editable {
            self.edits.clear();
            self.drafts.clear();
            self.deletions.clear();
            proof {
                assert(self.model().edits =~= Map::<(usize, usize), Option<Seq<char>>>::empty());
                assert(self.model().drafts =~= Seq::<Map<usize, Option<Seq<char>>>>::empty());
                assert(self.model().deletions =~= Set::<usize>::empty());
            }
        }
        proof {
            assert(self.model() =~= before.with_editable(editable));
        }
    }

    /// Start a row the user fills in by hand, below the ones shown.
    pub fn add_draft(&mut self)
        requires
            old(self).wf(),
        ensures
            final(self).wf(),
            final(self).model() == old(self).model().with_draft(),
    {
        let ghost before = self.model();
        if !self.editable || self.rows() == usize::MAX {
            return;
        }
        self.drafts.push(KeyedVec::new());
        proof {
            assert forall|e: int| 0 <= e < self.drafts@.len() implies (#[trigger] self.drafts@[e]).wf() by {
                if e < old(self).drafts@.len() {
                    assert(self.drafts@[e] == old(self).drafts@[e]);
                }
            }
            assert(draft_view(self.drafts@.last()) =~= Map::<usize, Option<Seq<char>>>::empty());
            assert(self.model().drafts =~= before.drafts.push(Map::empty()));
            assert(self.model() =~= before.with_draft());
        }
    }

    /// Drop the row being built at `draft`, leaving the others alone.
    pub fn discard_draft(&mut self, draft: usize)
        requires
            old(self).wf(),
        ensures
            final(self).wf(),
            final(self).model() == old(self).model().without_draft(draft),
    {
        let ghost before = self.model();
        if draft < self.drafts.len() {
            self.drafts.remove(draft);
            proof {
                assert forall|e: int| 0 <= e < self.drafts@.len() implies (#[trigger] self.drafts@[e]).wf() by {
                    if e < draft {
                        assert(self.drafts@[e] == old(self).drafts@[e]);
                    } else {
                        assert(self.drafts@[e] == old(self).drafts@[e + 1]);
                    }
                }
                assert(self.model().drafts =~= before.drafts.remove(draft as int));
            }
        }
        proof {
            assert(self.model() =~= before.without_draft(draft));
        }
    }

    /// Source row `r`'s staged edits taken as written.
    fn apply_row(&mut self, r: usize)
        requires
            old(self).wf(),
        ensures
            final(self).wf(),
            final(self).model() == old(self).model().apply_row(r),
    {
        let ghost before = self.model();
        let taken = self.edits.remove(r);
        proof {
            assert forall|s: usize| #[trigger] self.edits@.contains_key(s) implies self.edits@[s].wf() by {
                assert(old(self).edits@.contains_key(s));
            }
            assert(self.model().edits =~= before.apply_row(r).edits);
        }
        match taken {
            None => {
                proof {
                    if r < before.rows.len() {
                        assert(before.apply_row(r).rows[r as int] =~= before.rows[r as int]);
                        assert(before.apply_row(r).rows =~= before.rows);
                    }
                    assert(self.model() =~= before.apply_row(r));
                }
            },
            Some(inner) => {
                if r < self.result.rows.len() {
                    proof {
                        assert(old(self).edits@[r].wf());
                        inner.lemma_items();
                    }
                    let items = inner.entries();
                    let ghost it = items@;
                    let ghost rows_before = self.result.rows@;
                    let mut row = self.result.rows.remove(r);
                    let ghost old_row = row@;
                    let n_cols = row.len();
                    let mut i: usize = 0;
                    while i < items.len()
                        invariant
                            items@ == it,
                            keyed::ascending(it),
                            i <= it.len(),
                            row@.len() == old_row.len(),
                            forall|j: int| 0 <= j < i && (#[trigger] it[j]).0 < old_row.len() ==> text::opt_view(
                                row@[it[j].0 as int],
                            ) == text::opt_view(it[j].1),
                            forall|c: int| 0 <= c < old_row.len() && !(exists|j: int| 0 <= j < i && (#[trigger] it[j]).0 == c)
                                ==> row@[c] == old_row[c],
                        decreases it.len() - i,
                    {
                        let (c, v) = &items[i];
                        if *c < row.len() {
                            row.set(*c, copy_cell(v));
                        }
                        proof {
                            assert forall|j: int| 0 <= j < i + 1 && (#[trigger] it[j]).0 < old_row.len() implies text::opt_view(
                                row@[it[j].0 as int],
                            ) == text::opt_view(it[j].1) by {
                                if j < i {
                                    assert(it[j].0 < it[i as int].0);
                                }
                            }
                            assert forall|k: int| 0 <= k < old_row.len() && !(exists|j: int| 0 <= j < i + 1 && (#[trigger] it[j]).0 == k)
                                implies row@[k] == old_row[k] by {
                                assert(it[i as int].0 != k);
                            }
                        }
                        i = i + 1;
                    }
                    self.result.rows.insert(r, row);
                    proof {
                        let expected = before.apply_row(r).rows[r as int];
                        assert(inner == old(self).edits@[r]);
                        assert(old_row == rows_before[r as int]@);
                        assert(before.rows[r as int] == row_view(rows_before[r as int]));
                        assert forall|c: usize| c < old_row.len() implies #[trigger] row_view(row)[c as int]
                            == expected[c as int] by {
                            if before.edits.contains_key((r, c)) {
                                assert(inner@.contains_key(c));
                                assert(keyed::has_key(it, c));
                                let j = choose|j: int| 0 <= j < it.len() && (#[trigger] it[j]).0 == c;
                                assert(inner@.contains_key(it[j].0) && inner@[it[j].0] == it[j].1);
                                assert(text::opt_view(row@[c as int]) == text::opt_view(it[j].1));
                            } else {
                                if exists|j: int| 0 <= j < it.len() && (#[trigger] it[j]).0 == c {
                                    let j = choose|j: int| 0 <= j < it.len() && (#[trigger] it[j]).0 == c;
                                    assert(inner@.contains_key(it[j].0));
                                }
                                assert(row@[c as int] == old_row[c as int]);
                            }
                        }
                        assert(expected.len() == old_row.len());
                        assert(old_row.len() == n_cols);
                        assert forall|i: int| 0 <= i < old_row.len() implies row_view(row)[i] == expected[i] by {
                            let c = i as usize;
                            assert(row_view(row)[c as int] == expected[c as int]);
                        }
                        assert(row_view(row) =~= expected);
                        assert(self.result.rows@ =~= rows_before.update(r as int, row));
                        assert(self.model().rows =~= before.apply_row(r).rows);
                        assert(self.model() =~= before.apply_row(r));
                    }
                } else {
                    proof {
                        assert(self.model() =~= before.apply_row(r));
                    }
                }
            },
        }
    }

    /// Take `rows`' staged edits as written: they become the loaded values.
    pub fn apply_staged(&mut self, rows: &[usize])
        requires
            old(self).wf(),
        ensures
            final(self).wf(),
            final(self).model() == old(self).model().applied(rows@),
    {
        let ghost before = self.model();
        let mut i: usize = 0;
        assert(rows@.take(0) =~= Seq::<usize>::empty());
        while i < rows.len()
            invariant
                self.wf(),
                i <= rows@.len(),
                self.model() == before.applied(rows@.take(i as int)),
            decreases rows@.len() - i,
        {
            self.apply_row(rows[i]);
            proof {
                assert(rows@.take(i + 1).drop_last() =~= rows@.take(i as int));
            }
            i = i + 1;
        }
        assert(rows@.take(rows@.len() as int) =~= rows@);
    }

    /// The result column shown at `col_ix`; `None` for the checkbox column
    /// in front, which belongs to no value.
    pub fn data_column(col_ix: usize) -> (r: Option<usize>)
        ensures
            r == (if col_ix == 0 {
                None
            } else {
                Some((col_ix - 1) as usize)
            }),
    {
        col_ix.checked_sub(1)
    }

    /// How many rows are waiting to be written: edited ones, new ones, and
    /// ones marked for deletion.
    pub fn pending(&self) -> (r: usize)
        requires
            self.wf(),
            self.model().edited_rows().difference(self.model().deletions).len()
                + self.model().drafts.len() + self.model().deletions.len() <= usize::MAX,
        ensures
            r == self.model().edited_rows().difference(self.model().deletions).len()
                + self.model().drafts.len() + self.model().deletions.len(),
    {
        let (edited, inserted, deleted) = self.pending_counts();
        edited + inserted + deleted
    }

    /// Whether there is work a close would lose: a staged edit, a row being
    /// built, a row marked for deletion, or an editor still open on a value
    /// that differs from the cell, `editor_text` being what it holds.
    pub fn has_unsaved_edits(&self, editor_text: &str, coerce: bool) -> (r: bool)
        requires
            self.wf(),
        ensures
            r == (self.model().edited_rows().difference(self.model().deletions).len() > 0
                || self.model().drafts.len() > 0 || self.model().deletions.len() > 0 || match self.model().editing {
                Some((row, col)) => self.model().cell(row, col) != staged_value_spec(editor_text@, coerce),
                None => false,
            }),
    {
        let (edited, inserted, deleted) = self.pending_counts();
        if edited > 0 || inserted > 0 || deleted > 0 {
            return true;
        }
        match self.editing {
            None => false,
            Some((row_ix, col_ix)) => {
                let value = staged_value(String::from_str(editor_text), coerce);
                match (self.cell(row_ix, col_ix), &value) {
                    (Some(a), Some(b)) => *a != *b,
                    (None, None) => false,
                    _ => true,
                }
            },
        }
    }

    /// The shown rows a scope takes, in ascending order.
    pub fn scope_rows(&self, scope: Scope) -> (r: Vec<usize>)
        requires
            self.wf(),
        ensures
            increasing(r@),
            forall|k: usize| #[trigger] self.model().scope_rows(scope).contains(k) <==> r@.contains(k),
    {
        let all = match scope {
            Scope::All => true,
            Scope::Picked => false,
            Scope::Column(_) => self.rows_selected.is_empty(),
        };
        if !all {
            return self.picked_rows();
        }
        let n = self.rows();
        let mut out: Vec<usize> = Vec::new();
        let mut i: usize = 0;
        while i < n
            invariant
                i <= n,
                out@ == Seq::new(i as nat, |k: int| k as usize),
            decreases n - i,
        {
            out.push(i);
            i = i + 1;
            assert(out@ =~= Seq::new(i as nat, |k: int| k as usize));
        }
        proof {
            assert forall|k: usize| #[trigger] self.model().scope_rows(scope).contains(k) <==> out@.contains(k) by {
                if k < n {
                    assert(out@[k as int] == k);
                }
            }
        }
        out
    }

    /// The rows `rows` name, each cut to the columns `scope` takes, cells as
    /// they stand.
    pub fn snapshot_of(&self, scope: Scope, rows: &Vec<usize>) -> (r: Snapshot)
        requires
            self.wf(),
        ensures
            snapshot_view(r) == (
                self.model().scope_names(scope),
                self.model().scope_types(scope),
                rows@.map_values(
                    |row: usize| self.model().scope_columns(scope).map_values(
                        |c: usize| self.model().cell(row, c),
                    ),
                ),
            ),
    {
        let ghost m = self.model();
        let ncols = self.result.columns.len();
        let (columns, types, col_ixs) = match scope {
            Scope::Column(c) => {
                let mut columns: Vec<String> = Vec::new();
                let mut types: Vec<String> = Vec::new();
                let mut col_ixs: Vec<usize> = Vec::new();
                if c < ncols {
                    columns.push(copy_string(&self.result.columns[c]));
                    col_ixs.push(c);
                }
                if c < self.result.column_types.len() {
                    types.push(copy_string(&self.result.column_types[c]));
                }
                proof {
                    assert(text::views(columns@) =~= m.scope_names(scope));
                    assert(text::views(types@) =~= m.scope_types(scope));
                    assert(col_ixs@ =~= m.scope_columns(scope));
                }
                (columns, types, col_ixs)
            },
            _ => {
                let mut col_ixs: Vec<usize> = Vec::new();
                let mut i: usize = 0;
                while i < ncols
                    invariant
                        i <= ncols,
                        col_ixs@ == Seq::new(i as nat, |k: int| k as usize),
                    decreases ncols - i,
                {
                    col_ixs.push(i);
                    i = i + 1;
                    assert(col_ixs@ =~= Seq::new(i as nat, |k: int| k as usize));
                }
                let columns = text::copy_strings(&self.result.columns);
                let types = text::copy_strings(&self.result.column_types);
                proof {
                    assert(col_ixs@ =~= m.scope_columns(scope));
                }
                (columns, types, col_ixs)
            },
        };
        let ghost cols = m.scope_columns(scope);
        let mut out: Vec<Vec<Cell>> = Vec::new();
        let mut i: usize = 0;
        while i < rows.len()
            invariant
                self.wf(),
                m == self.model(),
                col_ixs@ == cols,
                i <= rows@.len(),
                out@.len() == i,
                forall|k: int| 0 <= k < i ==> row_view(#[trigger] out@[k]) == cols.map_values(
                    |c: usize| m.cell(rows@[k], c),
                ),
            decreases rows@.len() - i,
        {
            let row_ix = rows[i];
            let mut cells: Vec<Cell> = Vec::new();
            let mut j: usize = 0;
            while j < col_ixs.len()
                invariant
                    self.wf(),
                    m == self.model(),
                    col_ixs@ == cols,
                    j <= cols.len(),
                    cells@.len() == j,
                    forall|k: int| 0 <= k < j ==> text::opt_view(#[trigger] cells@[k]) == m.cell(row_ix, cols[k]),
                decreases cols.len() - j,
            {
                let v = match self.cell(row_ix, col_ixs[j]) {
                    Some(t) => Some(t.clone()),
                    None => None,
                };
                cells.push(v);
                j = j + 1;
            }
            proof {
                assert(row_view(cells) =~= cols.map_values(|c: usize| m.cell(row_ix, c)));
            }
            out.push(cells);
            i = i + 1;
        }
        let r = Snapshot { columns, types, rows: out };
        proof {
            assert(r.rows@.map_values(|x: Vec<Cell>| row_view(x)) =~= rows@.map_values(
                |row: usize| cols.map_values(|c: usize| m.cell(row, c)),
            ));
        }
        r
    }

    /// What a scope takes, at most `limit` rows of it, in shown order; and
    /// how many rows the scope held. Rows past the cap are never copied.
    pub fn snapshot_capped(&self, scope: Scope, limit: usize) -> (r: (Snapshot, usize))
        requires
            self.wf(),
        ensures
            exists|rows: Seq<usize>|
                increasing(rows) && (forall|k: usize| #[trigger] self.model().scope_rows(scope).contains(k)
                    <==> rows.contains(k)) && r.1 == rows.len() && snapshot_view(r.0) == (
                    self.model().scope_names(scope),
                    self.model().scope_types(scope),
                    rows.take(if limit < rows.len() { limit as int } else { rows.len() as int }).map_values(
                        |row: usize| self.model().scope_columns(scope).map_values(
                            |c: usize| self.model().cell(row, c),
                        ),
                    ),
                ),
    {
        let mut rows = self.scope_rows(scope);
        let ghost all = rows@;
        let total = rows.len();
        if limit < rows.len() {
            rows.truncate(limit);
        }
        proof {
            assert(rows@ =~= all.take(if limit < all.len() { limit as int } else { all.len() as int }));
        }
        let snap = self.snapshot_of(scope, &rows);
        (snap, total)
    }

    /// [`Self::snapshot_capped`] with no cap.
    pub fn snapshot(&self, scope: Scope) -> (r: Snapshot)
        requires
            self.wf(),
        ensures
            exists|rows: Seq<usize>|
                increasing(rows) && (forall|k: usize| #[trigger] self.model().scope_rows(scope).contains(k)
                    <==> rows.contains(k)) && snapshot_view(r) == (
                    self.model().scope_names(scope),
                    self.model().scope_types(scope),
                    rows.map_values(
                        |row: usize| self.model().scope_columns(scope).map_values(
                            |c: usize| self.model().cell(row, c),
                        ),
                    ),
                ),
    {
        let rows = self.scope_rows(scope);
        self.snapshot_of(scope, &rows)
    }

    /// What the grid does about a table event.
    pub fn table_event(&self, event: TableEvent) -> (r: GridStep)
        requires
            self.wf(),
        ensures
            r == self.model().step(event),
    {
        match event {
            TableEvent::SelectCell(row, 0) | TableEvent::SelectRow(row) => {
                if self.result.columns.len() == 0 {
                    GridStep::Nothing
                } else {
                    GridStep::SelectFirstColumn(row)
                }
            },
            TableEvent::DoubleClickedCell(row, shown) => {
                if shown == 0 {
                    return GridStep::Nothing;
                }
                let col = shown - 1;
                let value: Cell = match self.cell(row, col) {
                    Some(t) => Some(t.clone()),
                    None => None,
                };
                let data_type: &str = if col < self.result.column_types.len() {
                    self.result.column_types[col].as_str()
                } else {
                    ""
                };
                proof {
                    reveal_strlit("");
                    assert(data_type@ == self.model().column_type(col));
                }
                if needs_a_window(&value, data_type) {
                    GridStep::ViewCell(row, col)
                } else {
                    GridStep::BeginEdit(row, col)
                }
            },
            TableEvent::ClearSelection => GridStep::Focus(None, true),
            TableEvent::SelectCell(row, _) => GridStep::Focus(Some(row), false),
            TableEvent::Other => GridStep::Nothing,
        }
    }

    /// Fold whatever the open editor holds (`text`) into the staged edits,
    /// and say whether one was open. Safe to call with none open.
    pub fn commit_editor(&mut self, text: String, coerce: bool) -> (r: bool)
        requires
            old(self).wf(),
        ensures
            final(self).wf(),
            final(self).model() == old(self).model().committed(text@, coerce),
            r == old(self).model().editing is Some,
    {
        match self.editing {
            None => false,
            Some((row, col)) => {
                let ghost before = self.model();
                self.editing = None;
                proof {
                    assert(self.model() =~= (GridModel { editing: None, ..before }));
                }
                let value = staged_value(text, coerce);
                self.stage(row, col, value);
                true
            },
        }
    }

    /// Close the editor, keeping the cell as it was; say whether one was
    /// open.
    pub fn close_editor(&mut self) -> (r: bool)
        requires
            old(self).wf(),
        ensures
            final(self).wf(),
            final(self).model() == old(self).model().editor_closed(),
            r == old(self).model().editing is Some,
    {
        let ghost before = self.model();
        let was_open = self.editing.is_some();
        self.editing = None;
        proof {
            assert(self.model() =~= before.editor_closed());
        }
        was_open
    }

    /// Open the editor on a cell that can be typed into, and hand back the
    /// text it opens with: the value as it stands, or nothing for `NULL`
    /// (leaving it empty then stores an empty string, not a `NULL`).
    pub fn begin_edit(&mut self, row_ix: usize, col_ix: usize) -> (r: Option<String>)
        requires
            old(self).wf(),
        ensures
            final(self).wf(),
            final(self).model() == old(self).model().editing_at(row_ix, col_ix),
            match r {
                Some(t) => old(self).model().editable_cell(row_ix, col_ix) && t@ == match old(self).model().cell(
                    row_ix,
                    col_ix,
                ) {
                    Some(v) => v,
                    None => Seq::<char>::empty(),
                },
                None => !old(self).model().editable_cell(row_ix, col_ix),
            },
    {
        let ghost before = self.model();
        if !self.is_editable(row_ix, col_ix) {
            return None;
        }
        let value = match self.cell(row_ix, col_ix) {
            Some(t) => t.clone(),
            None => String::new(),
        };
        self.editing = Some((row_ix, col_ix));
        proof {
            assert(self.model() =~= before.editing_at(row_ix, col_ix));
        }
        Some(value)
    }

    /// Stage SQL `NULL` on a cell that can be typed into, whatever the editor
    /// holds; say whether it was staged.
    pub fn set_null(&mut self, row_ix: usize, col_ix: usize) -> (r: bool)
        requires
            old(self).wf(),
        ensures
            final(self).wf(),
            final(self).model() == old(self).model().nulled(row_ix, col_ix),
            r == old(self).model().editable_cell(row_ix, col_ix),
    {
        if !self.is_editable(row_ix, col_ix) {
            return false;
        }
        self.close_editor();
        self.stage(row_ix, col_ix, None);
        true
    }

    /// Stage a value on a cell that can be typed into: what the value window
    /// was saved with, or what a side panel typed. Say whether it was staged.
    pub fn stage_cell(&mut self, row_ix: usize, col_ix: usize, value: Cell) -> (r: bool)
        requires
            old(self).wf(),
        ensures
            final(self).wf(),
            final(self).model() == old(self).model().staged_if_editable(row_ix, col_ix, text::opt_view(value)),
            r == old(self).model().editable_cell(row_ix, col_ix),
    {
        if !self.is_editable(row_ix, col_ix) {
            return false;
        }
        self.stage(row_ix, col_ix, value);
        true
    }

    /// Move the keyboard's row. Says whether it moved, and, when it left a
    /// row with edits waiting on it, that row's source: leaving a row is what
    /// writes it.
    pub fn focus_row(&mut self, row: Option<usize>) -> (r: (bool, Option<usize>))
        requires
            old(self).wf(),
        ensures
            final(self).wf(),
            old(self).focused_row == row ==> final(self).model() == old(self).model() && r == (false, None::<usize>),
            old(self).focused_row != row ==> final(self).model() == (GridModel { focused: row, ..old(self).model() })
                && r == (true, old(self).model().left_with_edits()),
    {
        let previous = self.focused_row;
        let same = match (previous, row) {
            (Some(a), Some(b)) => a == b,
            (None, None) => true,
            _ => false,
        };
        if same {
            return (false, None);
        }
        let left = match previous {
            Some(p) => match self.source(p) {
                Some(s) => if self.row_has_edits(s) {
                    Some(s)
                } else {
                    None
                },
                None => None,
            },
            None => None,
        };
        let ghost before = self.model();
        self.focused_row = row;
        proof {
            assert(self.model() =~= (GridModel { focused: row, ..before }));
        }
        (true, left)
    }

    /// The source row whose real bytes an owner may read back to preview a
    /// cell: a binary cell holding only the driver's description of its
    /// value, on a loaded row. A draft, or any other cell, has none.
    pub fn preview_row(&self, row_ix: usize, col_ix: usize) -> (r: Option<usize>)
        requires
            self.wf(),
        ensures
            r == (if query::is_description_opt(self.model().cell(row_ix, col_ix)) && query::binary_type(
                self.model().column_type(col_ix),
            ) {
                self.model().source(row_ix)
            } else {
                None
            }),
    {
        let described = query::is_description_ref(self.cell(row_ix, col_ix));
        let binary = col_ix < self.result.column_types.len() && is_binary_type(
            self.result.column_types[col_ix].as_str(),
        );
        proof {
            if col_ix >= self.result.column_types.len() {
                assert(!query::binary_type(Seq::<char>::empty())) by {
                    reveal_strlit("BLOB");
                    reveal_strlit("BYTEA");
                    reveal_strlit("BINARY");
                }
            }
        }
        if described && binary {
            self.source(row_ix)
        } else {
            None
        }
    }
}


/// An item of a row's right-click menu.
#[derive(Clone, Copy, PartialEq, Eq, Structural, Debug)]
pub enum MenuItem {
    /// Open the value of the right-clicked cell in a window.
    ViewValue { row: usize, col: usize },
    /// Jump to the row a foreign key value points at.
    GoToReferenced { row: usize, col: usize },
    /// Drop a row being added; it has nothing on the server to delete.
    DiscardNewRow(usize),
    /// Mark the picked rows for deletion (how many rows that is).
    Delete(usize),
    /// Take the deletion mark off the picked rows (how many rows that is).
    Restore(usize),
}

/// The items a right click on shown row `row` offers, given the cell the
/// click landed on and the columns that hold foreign keys. Looking at a
/// value is offered on any grid; jumping is offered for a foreign key cell
/// that holds a value; a grid that can be written to adds dropping a new
/// row, or deleting (restoring) the rows the click picked.
pub open spec fn menu_for(
    m: GridModel,
    row: usize,
    menu_cell: Option<(usize, usize)>,
    foreign_keys: Seq<usize>,
) -> Seq<MenuItem> {
    let viewing = match menu_cell {
        Some((r, c)) => if r == row {
            seq![MenuItem::ViewValue { row: r, col: c }] + (if foreign_keys.contains(c) && m.cell(
                r,
                c,
            ) is Some {
                seq![MenuItem::GoToReferenced { row: r, col: c }]
            } else {
                Seq::empty()
            })
        } else {
            Seq::empty()
        },
        None => Seq::empty(),
    };
    if !m.editable {
        viewing
    } else {
        match m.draft(row) {
            Some(d) => viewing.push(MenuItem::DiscardNewRow(d as usize)),
            None => {
                let rows = m.mark_for_menu(row).picked.len() as usize;
                if m.deleted(row) {
                    viewing.push(MenuItem::Restore(rows))
                } else {
                    viewing.push(MenuItem::Delete(rows))
                }
            },
        }
    }
}

/// The text a menu item shows.
pub open spec fn menu_label_spec(item: MenuItem) -> Seq<char> {
    match item {
        MenuItem::ViewValue { .. } => "View value"@,
        MenuItem::GoToReferenced { .. } => "Go to referenced row"@,
        MenuItem::DiscardNewRow(_) => "Discard new row"@,
        MenuItem::Delete(rows) => delete_label_spec(false, rows as nat),
        MenuItem::Restore(rows) => delete_label_spec(true, rows as nat),
    }
}

/// The text a menu item shows.
pub fn menu_label(item: MenuItem) -> (r: String)
    ensures
        r@ == menu_label_spec(item),
{
    match item {
        MenuItem::ViewValue { .. } => String::from_str("View value"),
        MenuItem::GoToReferenced { .. } => String::from_str("Go to referenced row"),
        MenuItem::DiscardNewRow(_) => String::from_str("Discard new row"),
        MenuItem::Delete(rows) => delete_label(false, rows),
        MenuItem::Restore(rows) => delete_label(true, rows),
    }
}

/// Whether `col` is one of `cols`.
fn listed(cols: &Vec<usize>, col: usize) -> (r: bool)
    ensures
        r == cols@.contains(col),
{
    let mut i: usize = 0;
    while i < cols.len()
        invariant
            i <= cols@.len(),
            forall|j: int| 0 <= j < i ==> cols@[j] != col,
        decreases cols.len() - i,
    {
        if cols[i] == col {
            return true;
        }
        i = i + 1;
    }
    false
}

impl ResultDelegate {
    /// The items a right click on `row_ix` offers. A right click on a row
    /// outside the picked ones picks that row alone first, the way a file
    /// manager does, when the menu is to act on rows.
    pub fn row_menu(
        &mut self,
        row_ix: usize,
        menu_cell: Option<(usize, usize)>,
        foreign_keys: &Vec<usize>,
    ) -> (r: Vec<MenuItem>)
        requires
            old(self).wf(),
        ensures
            final(self).wf(),
            r@ == menu_for(old(self).model(), row_ix, menu_cell, foreign_keys@),
            final(self).model() == (if old(self).model().editable && old(self).model().draft(row_ix) is None {
                old(self).model().mark_for_menu(row_ix)
            } else {
                old(self).model()
            }),
    {
        let mut items: Vec<MenuItem> = Vec::new();
        match menu_cell {
            Some((row, col)) => {
                if row == row_ix {
                    items.push(MenuItem::ViewValue { row, col });
                    if listed(foreign_keys, col) && self.cell(row, col).is_some() {
                        items.push(MenuItem::GoToReferenced { row, col });
                    }
                }
            },
            None => {},
        }
        if !self.editable {
            return items;
        }
        match self.draft(row_ix) {
            Some(d) => {
                items.push(MenuItem::DiscardNewRow(d));
            },
            None => {
                let deleted = self.is_deleted(row_ix);
                let rows = self.mark_for_menu(row_ix);
                if deleted {
                    items.push(MenuItem::Restore(rows));
                } else {
                    items.push(MenuItem::Delete(rows));
                }
            },
        }
        items
    }
}


/// What a copy takes.
#[derive(Clone, Debug)]
pub enum CopyTarget {
    /// One cell's text (a `NULL` copies as nothing, the way an empty cell
    /// does).
    Value(String),
    /// The picked rows.
    Rows,
    /// Nothing is selected.
    Nothing,
}

/// A cell's text as a copy takes it: `NULL` as nothing.
pub open spec fn copied_text(v: Option<Seq<char>>) -> Seq<char> {
    match v {
        Some(t) => t,
        None => Seq::empty(),
    }
}

impl ResultDelegate {
    /// The rows a copy acts on: the picked ones when any are picked, every
    /// row shown otherwise.
    pub fn row_scope(&self) -> (r: Scope)
        requires
            self.wf(),
        ensures
            r == (if self.model().picked.len() == 0 {
                Scope::All
            } else {
                Scope::Picked
            }),
    {
        let rows = self.picked_rows();
        proof {
            assert(self.model().picked =~= rows@.to_set());
            vstd::seq_lib::seq_to_set_is_finite(rows@);
            if rows@.len() == 0 {
                assert(rows@.to_set() =~= Set::empty());
            } else {
                assert(rows@.to_set().contains(rows@[0]));
            }
        }
        if rows.len() == 0 {
            Scope::All
        } else {
            Scope::Picked
        }
    }

    /// What a copy takes: the cell named (the one a right click landed
    /// on); else the picked rows, when any are picked, since once a row is
    /// checked a row is what the user is working with; else the selected
    /// cell; else nothing.
    pub fn copy_target(&self, cell: Option<(usize, usize)>, selected: Option<(usize, usize)>) -> (r:
        CopyTarget)
        requires
            self.wf(),
        ensures
            match cell {
                Some((row, col)) => r matches CopyTarget::Value(t) && t@ == copied_text(
                    self.model().cell(row, col),
                ),
                None => if self.model().picked.len() > 0 {
                    r is Rows
                } else {
                    match selected {
                        Some((row, col)) => r matches CopyTarget::Value(t) && t@ == copied_text(
                            self.model().cell(row, col),
                        ),
                        None => r is Nothing,
                    }
                },
            },
    {
        let at = match cell {
            Some(c) => Some(c),
            None => {
                match self.row_scope() {
                    Scope::Picked => {
                        return CopyTarget::Rows;
                    },
                    _ => {},
                }
                selected
            },
        };
        match at {
            Some((row, col)) => match self.cell(row, col) {
                Some(t) => CopyTarget::Value(copy_string(t)),
                None => CopyTarget::Value(String::new()),
            },
            None => CopyTarget::Nothing,
        }
    }

    /// Where revealing the data column named `name` puts the selection:
    /// on that column's first cell when there is a row (`true`), or only
    /// scrolled to its header on an empty page (`false`), with the column's
    /// index among the shown ones (past the checkbox column). `None` when
    /// the grid has no such column, as when a table is asked before its
    /// page has loaded.
    pub fn reveal_column(&self, name: &str) -> (r: Option<(bool, usize)>)
        requires
            self.wf(),
        ensures
            match r {
                Some((select, shown)) => 1 <= shown && shown - 1 < self.model().columns.len()
                    && self.model().columns[shown - 1] == name@ && (forall|j: int|
                    0 <= j < shown - 1 ==> self.model().columns[j] != name@) && select == (
                self.model().rows.len() > 0),
                None => forall|j: int| 0 <= j < self.model().columns.len() ==> self.model().columns[j] != name@,
            },
    {
        let wanted = chars_of(name);
        let mut i: usize = 0;
        while i < self.result.columns.len()
            invariant
                self.wf(),
                wanted@ == name@,
                i <= self.result.columns@.len(),
                forall|j: int| 0 <= j < i ==> self.model().columns[j] != name@,
            decreases self.result.columns.len() - i,
        {
            if text::chars_eq(&chars_of(self.result.columns[i].as_str()), &wanted) {
                return Some((self.result.rows.len() > 0, i + 1));
            }
            i = i + 1;
        }
        None
    }
}


/// How a header click sorts the rows.
#[derive(Clone, Copy, PartialEq, Eq, Structural, Debug)]
pub enum ColumnSort {
    /// The order the server sent.
    Default,
    Ascending,
    Descending,
}

/// Who sorts the grid's rows.
#[derive(Clone, Copy, PartialEq, Eq, Structural, Debug)]
pub enum Sorting {
    /// The grid reorders the rows it holds.
    InPlace,
    /// The owner sorts on the server and hands the rows back.
    Delegated,
}

/// What a header click sets off.
#[derive(Clone, Debug)]
pub enum SortStep {
    /// Reorder the rows here by this data column.
    Reorder { column: usize, sort: ColumnSort },
    /// Ask the owner to sort by the column of this name.
    Report { column: String, sort: ColumnSort },
}

impl ResultDelegate {
    /// A header click on shown column `col_ix` settled on `sort`. `None`
    /// for the checkbox column or a column past the last; otherwise the
    /// header marker the grid now shows (none for the server's own order)
    /// and what to do: reorder here, or hand the sort to the owner.
    pub fn sort_step(&self, col_ix: usize, sort: ColumnSort, sorting: Sorting) -> (r: Option<
        (Option<(String, ColumnSort)>, SortStep),
    >)
        requires
            self.wf(),
        ensures
            col_ix == 0 || col_ix - 1 >= self.model().columns.len() ==> r is None,
            col_ix >= 1 && col_ix - 1 < self.model().columns.len() ==> (r matches Some((marker, step))
                && (match sort {
                ColumnSort::Default => marker is None,
                _ => (marker matches Some((name, s)) && name@ == self.model().columns[col_ix - 1]
                    && s == sort),
            }) && (match sorting {
                Sorting::InPlace => (step matches SortStep::Reorder { column, sort: s } && column
                    == col_ix - 1 && s == sort),
                Sorting::Delegated => (step matches SortStep::Report { column, sort: s } && column@
                    == self.model().columns[col_ix - 1] && s == sort),
            })),
    {
        let data_ix = match Self::data_column(col_ix) {
            Some(d) => d,
            None => {
                return None;
            },
        };
        if data_ix >= self.result.columns.len() {
            return None;
        }
        let column = &self.result.columns[data_ix];
        let marker = match sort {
            ColumnSort::Default => None,
            _ => Some((copy_string(column), sort)),
        };
        let step = match sorting {
            Sorting::InPlace => SortStep::Reorder { column: data_ix, sort },
            Sorting::Delegated => SortStep::Report { column: copy_string(column), sort },
        };
        Some((marker, step))
    }
}

} // verus!
