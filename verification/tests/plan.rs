use zippa_db::plan::{
    chevron, starts_open, steps, summary_tail, tree_rows, warnings_label, Chevron, Expansion,
    PlanStep,
};

fn step(label: &str, warnings: usize, children: Vec<PlanStep>) -> PlanStep {
    PlanStep {
        label: label.to_string(),
        warnings,
        children,
    }
}

fn sample() -> PlanStep {
    step(
        "Hash Join",
        0,
        vec![
            step("Seq Scan on orders", 1, vec![]),
            step("Hash", 0, vec![step("Index Scan on customers", 0, vec![])]),
        ],
    )
}

/// A chain of `n` steps, each under the one before.
fn chain(n: usize) -> PlanStep {
    let mut node = step(&format!("step {}", n - 1), 0, vec![]);
    for i in (0..n - 1).rev() {
        node = step(&format!("step {i}"), 0, vec![node]);
    }
    node
}

#[test]
fn every_step_is_counted() {
    assert_eq!(steps(&sample()), 4);
    assert_eq!(steps(&step("Result", 0, vec![])), 1);
}

#[test]
fn rows_are_listed_depth_first_with_their_paths() {
    let rows = tree_rows(&sample(), Expansion::All);
    let ids: Vec<&str> = rows.iter().map(|r| r.id.as_str()).collect();
    assert_eq!(ids, vec!["0", "0/0", "0/1", "0/1/0"]);
    let labels: Vec<&str> = rows.iter().map(|r| r.label.as_str()).collect();
    assert_eq!(
        labels,
        vec!["Hash Join", "Seq Scan on orders", "Hash", "Index Scan on customers"]
    );
    let depths: Vec<usize> = rows.iter().map(|r| r.depth).collect();
    assert_eq!(depths, vec![0, 1, 1, 2]);
    let folders: Vec<bool> = rows.iter().map(|r| r.folder).collect();
    assert_eq!(folders, vec![true, false, true, false]);
    assert_eq!(rows[1].warnings, 1);
}

#[test]
fn a_deep_plan_opens_only_its_upper_levels() {
    let rows = tree_rows(&chain(8), Expansion::Auto);
    let open: Vec<bool> = rows.iter().map(|r| r.expanded).collect();
    assert_eq!(open, vec![true, true, true, true, true, true, false, false]);
    assert!(tree_rows(&chain(3), Expansion::All).iter().all(|r| r.expanded));
    assert!(tree_rows(&chain(3), Expansion::Collapsed)
        .iter()
        .all(|r| !r.expanded));
    assert!(starts_open(Expansion::Auto, 5));
    assert!(!starts_open(Expansion::Auto, 6));
}

#[test]
fn the_chevron_follows_the_row() {
    assert_eq!(chevron(true, true), Some(Chevron::Down));
    assert_eq!(chevron(true, false), Some(Chevron::Right));
    assert_eq!(chevron(false, true), None);
}

#[test]
fn the_header_counts_steps_and_warnings() {
    assert_eq!(summary_tail(true, 7), vec!["analyzed", "7 steps"]);
    assert_eq!(summary_tail(false, 1), vec!["1 step"]);
    assert_eq!(warnings_label(1), "1 warning");
    assert_eq!(warnings_label(3), "3 warnings");
}
