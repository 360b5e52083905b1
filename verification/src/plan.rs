//! The plan viewer's tree of steps: how many steps a plan has, which rows
//! start open, the id each row is found by (its path from the root), and
//! the words on the viewer's header.
//!
//! The engine's numbers (row estimates, costs, times) are read and drawn
//! elsewhere; a step here carries what the tree itself needs.

use vstd::prelude::*;
use crate::text::decimal;

verus! {

/// One step of a plan, with the steps under it.
pub struct PlanStep {
    pub label: String,
    /// How many warnings the engine attached to this step.
    pub warnings: usize,
    pub children: Vec<PlanStep>,
}

/// How many steps `node` holds, itself included.
pub open spec fn step_count(node: PlanStep) -> nat
    decreases node, node.children@.len() + 1,
{
    1 + children_count(node, 0)
}

/// How many steps the children of `node` from the `i`-th on hold.
pub open spec fn children_count(node: PlanStep, i: nat) -> nat
    decreases node, node.children@.len() - i,
{
    if i >= node.children@.len() {
        0
    } else {
        step_count(node.children@[i as int]) + children_count(node, i + 1)
    }
}

/// How many steps `node` holds, itself included.
pub fn steps(node: &PlanStep) -> (r: usize)
    requires
        step_count(*node) <= usize::MAX,
    ensures
        r == step_count(*node),
    decreases node,
{
    let mut total: usize = 1;
    let mut i: usize = 0;
    while i < node.children.len()
        invariant
            i <= node.children@.len(),
            total + children_count(*node, i as nat) == step_count(*node),
            step_count(*node) <= usize::MAX,
        decreases node.children@.len() - i,
    {
        let child = &node.children[i];
        let n = steps(child);
        total = total + n;
        i = i + 1;
    }
    total
}

/// How open the tree starts.
#[derive(Clone, Copy, PartialEq, Eq, Structural, Debug)]
pub enum Expansion {
    /// Every step, as `Expand all` asks.
    All,
    /// No step.
    Collapsed,
    /// The steps above [`AUTO_EXPAND_DEPTH`], so a plan with hundreds of
    /// steps shows its shape rather than its bulk.
    Auto,
}

/// Depth from which a plan opens collapsed.
pub const AUTO_EXPAND_DEPTH: usize = 6;

/// Whether a step at `depth` starts open.
pub open spec fn opens(expansion: Expansion, depth: nat) -> bool {
    match expansion {
        Expansion::All => true,
        Expansion::Collapsed => false,
        Expansion::Auto => depth < AUTO_EXPAND_DEPTH,
    }
}

/// Whether a step at `depth` starts open.
pub fn starts_open(expansion: Expansion, depth: usize) -> (r: bool)
    ensures
        r == opens(expansion, depth as nat),
{
    match expansion {
        Expansion::All => true,
        Expansion::Collapsed => false,
        Expansion::Auto => depth < AUTO_EXPAND_DEPTH,
    }
}

/// A row of the plan tree, in the order the tree lists them.
pub struct TreeRow {
    /// The step's path from the root (`0`, `0/1`, `0/1/0`), by which the
    /// row finds what it draws.
    pub id: String,
    pub label: String,
    pub depth: usize,
    pub expanded: bool,
    /// Whether the step has steps under it.
    pub folder: bool,
    pub warnings: usize,
}

/// A row as the specification sees it: id, label, depth, open, folder,
/// warnings.
pub type RowView = (Seq<char>, Seq<char>, nat, bool, bool, nat);

/// The view of a row.
pub open spec fn row_view(r: TreeRow) -> RowView {
    (r.id@, r.label@, r.depth as nat, r.expanded, r.folder, r.warnings as nat)
}

/// The id of the `i`-th child of the step at `path`.
pub open spec fn child_id(path: Seq<char>, i: nat) -> Seq<char> {
    path + "/"@ + decimal(i)
}

/// The rows of `node` and the steps under it, depth first, `node` itself
/// first, its children in order.
pub open spec fn rows_of(node: PlanStep, path: Seq<char>, depth: nat, expansion: Expansion) -> Seq<
    RowView,
>
    decreases node, node.children@.len() + 1,
{
    seq![
        (
            path,
            node.label@,
            depth,
            opens(expansion, depth),
            node.children@.len() > 0,
            node.warnings as nat,
        ),
    ] + children_rows(node, path, depth, expansion, 0)
}

/// The rows of the children of `node` from the `i`-th on.
pub open spec fn children_rows(
    node: PlanStep,
    path: Seq<char>,
    depth: nat,
    expansion: Expansion,
    i: nat,
) -> Seq<RowView>
    decreases node, node.children@.len() - i,
{
    if i >= node.children@.len() {
        Seq::empty()
    } else {
        rows_of(node.children@[i as int], child_id(path, i), depth + 1, expansion) + children_rows(
            node,
            path,
            depth,
            expansion,
            i + 1,
        )
    }
}

/// The id of the `i`-th child of the step at `path`.
fn child_path(path: &String, i: usize) -> (r: String)
    ensures
        r@ == child_id(path@, i as nat),
{
    let mut r = crate::text::copy_string(path);
    r.append("/");
    r.append(crate::text::decimal_string(i as u64).as_str());
    r
}

/// Append the rows of `node`, found at `path` and `depth`, to `rows`.
fn push_rows(node: &PlanStep, path: String, depth: usize, expansion: Expansion, rows: &mut Vec<TreeRow>)
    requires
        depth + step_count(*node) <= usize::MAX,
    ensures
        final(rows)@.map_values(|r: TreeRow| row_view(r)) == old(rows)@.map_values(
            |r: TreeRow| row_view(r),
        ) + rows_of(*node, path@, depth as nat, expansion),
    decreases node,
{
    let ghost start = rows@.map_values(|r: TreeRow| row_view(r));
    let ghost p = path@;
    rows.push(
        TreeRow {
            id: crate::text::copy_string(&path),
            label: crate::text::copy_string(&node.label),
            depth,
            expanded: starts_open(expansion, depth),
            folder: node.children.len() > 0,
            warnings: node.warnings,
        },
    );
    let ghost first = seq![
        (p, node.label@, depth as nat, opens(expansion, depth as nat), node.children@.len() > 0, node.warnings as nat),
    ];
    assert(rows@.map_values(|r: TreeRow| row_view(r)) =~= start + first);
    let mut i: usize = 0;
    while i < node.children.len()
        invariant
            i <= node.children@.len(),
            p == path@,
            depth + step_count(*node) <= usize::MAX,
            step_count(*node) == 1 + children_count(*node, 0),
            children_count(*node, 0) >= children_count(*node, i as nat),
            rows@.map_values(|r: TreeRow| row_view(r)) + children_rows(*node, p, depth as nat, expansion, i as nat)
                == start + rows_of(*node, p, depth as nat, expansion),
        decreases node.children@.len() - i,
    {
        let child = &node.children[i];
        let id = child_path(&path, i);
        let ghost before = rows@.map_values(|r: TreeRow| row_view(r));
        let ghost rest = children_rows(*node, p, depth as nat, expansion, (i + 1) as nat);
        assert(children_count(*node, i as nat) == step_count(*child) + children_count(*node, (i + 1) as nat));
        push_rows(child, id, depth + 1, expansion, rows);
        proof {
            assert(before + children_rows(*node, p, depth as nat, expansion, i as nat) =~= rows@.map_values(
                |r: TreeRow| row_view(r),
            ) + rest);
        }
        i = i + 1;
    }
    assert(children_rows(*node, p, depth as nat, expansion, i as nat) =~= Seq::<RowView>::empty());
    assert(rows@.map_values(|r: TreeRow| row_view(r)) =~= start + rows_of(*node, p, depth as nat, expansion));
}

/// The rows of a plan's tree in the order they are listed, the root's id
/// being `0`.
pub fn tree_rows(root: &PlanStep, expansion: Expansion) -> (r: Vec<TreeRow>)
    requires
        step_count(*root) <= usize::MAX,
    ensures
        r@.map_values(|row: TreeRow| row_view(row)) == rows_of(*root, "0"@, 0, expansion),
{
    let mut rows: Vec<TreeRow> = Vec::new();
    push_rows(root, String::from_str("0"), 0, expansion, &mut rows);
    assert(rows@.map_values(|row: TreeRow| row_view(row)) =~= Seq::<RowView>::empty() + rows_of(
        *root,
        "0"@,
        0,
        expansion,
    ));
    rows
}

/// The steps of `node`, depth first: `node` itself, then the steps under
/// each of its children, child by child.
pub open spec fn steps_in_order(node: PlanStep) -> Seq<PlanStep>
    decreases node, node.children@.len() + 1,
{
    seq![node] + steps_under(node, 0)
}

/// The steps under the children of `node` from the `i`-th on, depth first.
pub open spec fn steps_under(node: PlanStep, i: nat) -> Seq<PlanStep>
    decreases node, node.children@.len() - i,
{
    if i >= node.children@.len() {
        Seq::empty()
    } else {
        steps_in_order(node.children@[i as int]) + steps_under(node, i + 1)
    }
}

/// Whether each of `rows` shows the step at the same place of `steps`: its
/// label, whether it has steps under it, and its own warning count.
pub open spec fn rows_show_steps(rows: Seq<RowView>, steps: Seq<PlanStep>) -> bool {
    &&& rows.len() == steps.len()
    &&& forall|k: int|
        0 <= k < rows.len() ==> {
            let row = #[trigger] rows[k];
            &&& row.1 == steps[k].label@
            &&& row.4 == (steps[k].children@.len() > 0)
            &&& row.5 == steps[k].warnings as nat
        }
}

proof fn lemma_rows_show_steps_add(a: Seq<RowView>, b: Seq<RowView>, s: Seq<PlanStep>, t: Seq<PlanStep>)
    requires
        rows_show_steps(a, s),
        rows_show_steps(b, t),
    ensures
        rows_show_steps(a + b, s + t),
{
    assert forall|k: int| 0 <= k < (a + b).len() implies {
        let row = #[trigger] (a + b)[k];
        &&& row.1 == (s + t)[k].label@
        &&& row.4 == ((s + t)[k].children@.len() > 0)
        &&& row.5 == (s + t)[k].warnings as nat
    } by {
        if k < a.len() {
            assert((a + b)[k] == a[k]);
            assert((s + t)[k] == s[k]);
        } else {
            assert((a + b)[k] == b[k - a.len()]);
            assert((s + t)[k] == t[k - s.len()]);
        }
    }
}

/// Each row of a step's subtree shows its own step, in depth-first order.
proof fn lemma_rows_of(node: PlanStep, path: Seq<char>, depth: nat, expansion: Expansion)
    ensures
        rows_show_steps(rows_of(node, path, depth, expansion), steps_in_order(node)),
    decreases node, node.children@.len() + 1,
{
    lemma_children_rows(node, path, depth, expansion, 0);
    let first = seq![
        (
            path,
            node.label@,
            depth,
            opens(expansion, depth),
            node.children@.len() > 0,
            node.warnings as nat,
        ),
    ];
    assert(rows_show_steps(first, seq![node]));
    lemma_rows_show_steps_add(
        first,
        children_rows(node, path, depth, expansion, 0),
        seq![node],
        steps_under(node, 0),
    );
}

proof fn lemma_children_rows(node: PlanStep, path: Seq<char>, depth: nat, expansion: Expansion, i: nat)
    ensures
        rows_show_steps(children_rows(node, path, depth, expansion, i), steps_under(node, i)),
    decreases node, node.children@.len() - i,
{
    if i < node.children@.len() {
        let child = node.children@[i as int];
        assert(decreases_to!(node => child)) by {
            assert(decreases_to!(node => node.children));
            assert(decreases_to!(node.children => node.children@));
            assert(decreases_to!(node.children@ => node.children@[i as int]));
        }
        lemma_rows_of(child, child_id(path, i), depth + 1, expansion);
        lemma_children_rows(node, path, depth, expansion, i + 1);
        lemma_rows_show_steps_add(
            rows_of(child, child_id(path, i), depth + 1, expansion),
            children_rows(node, path, depth, expansion, i + 1),
            steps_in_order(child),
            steps_under(node, i + 1),
        );
    } else {
        assert(rows_show_steps(Seq::<RowView>::empty(), Seq::<PlanStep>::empty()));
    }
}

/// Every row of a plan's tree shows its own step: listed depth first, the
/// `k`-th row carries the `k`-th step's label, whether it has steps under
/// it, and that step's own warning count, whether or not it has children.
pub proof fn every_row_shows_its_own_step(root: PlanStep, expansion: Expansion)
    ensures
        rows_show_steps(rows_of(root, "0"@, 0, expansion), steps_in_order(root)),
{
    lemma_rows_of(root, "0"@, 0, expansion);
}

/// Which way a row's chevron points: down for an open step that has steps
/// under it, right for a closed one; a step with none has no chevron.
#[derive(Clone, Copy, PartialEq, Eq, Structural, Debug)]
pub enum Chevron {
    Down,
    Right,
}

/// The chevron a row shows.
pub fn chevron(folder: bool, expanded: bool) -> (r: Option<Chevron>)
    ensures
        !folder ==> r is None,
        folder && expanded ==> r == Some(Chevron::Down),
        folder && !expanded ==> r == Some(Chevron::Right),
{
    if !folder {
        None
    } else if expanded {
        Some(Chevron::Down)
    } else {
        Some(Chevron::Right)
    }
}

/// The end of the plan's summary line: `analyzed` for a plan that was run,
/// then how many steps it has.
pub open spec fn summary_tail_text(analyzed: bool, steps: nat) -> Seq<Seq<char>> {
    let count = decimal(steps) + " step"@ + (if steps == 1 {
        Seq::empty()
    } else {
        "s"@
    });
    if analyzed {
        seq!["analyzed"@, count]
    } else {
        seq![count]
    }
}

/// The end of the plan's summary line, piece by piece.
pub fn summary_tail(analyzed: bool, steps: usize) -> (r: Vec<String>)
    ensures
        crate::text::views(r@) == summary_tail_text(analyzed, steps as nat),
{
    let mut r: Vec<String> = Vec::new();
    if analyzed {
        r.push(String::from_str("analyzed"));
    }
    let mut count = crate::text::decimal_string(steps as u64);
    count.append(" step");
    if steps != 1 {
        count.append("s");
    }
    r.push(count);
    assert(crate::text::views(r@) =~= summary_tail_text(analyzed, steps as nat));
    r
}

/// The label of the header's warnings button: `1 warning`, `3 warnings`.
pub fn warnings_label(count: usize) -> (r: String)
    ensures
        r@ == decimal(count as nat) + " warning"@ + (if count == 1 {
            Seq::empty()
        } else {
            "s"@
        }),
{
    let mut r = crate::text::decimal_string(count as u64);
    r.append(" warning");
    if count != 1 {
        r.append("s");
    }
    r
}

} // verus!
