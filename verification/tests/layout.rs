use zippa_db::layout::{column_characters, SAMPLE_ROWS};
use zippa_db::query::QueryResult;

fn result(columns: &[&str], rows: Vec<Vec<Option<&str>>>) -> QueryResult {
    QueryResult {
        columns: columns.iter().map(|name| name.to_string()).collect(),
        rows: rows
            .into_iter()
            .map(|row| row.into_iter().map(|cell| cell.map(|value| value.to_string())).collect())
            .collect(),
        ..QueryResult::default()
    }
}

#[test]
fn narrow_columns_count_their_header() {
    let widths = column_characters(&result(&["id"], vec![vec![Some("1")], vec![Some("2")]]));
    assert_eq!(widths, vec![2]);
}

#[test]
fn wide_values_count_in_full() {
    let long = "x".repeat(500);
    let widths = column_characters(&result(&["blob"], vec![vec![Some(long.as_str())]]));
    assert_eq!(widths, vec![500]);
}

#[test]
fn width_follows_the_longest_sampled_value_in_characters() {
    let widths = column_characters(&result(
        &["name"],
        vec![vec![Some("ada")], vec![Some("a rather longer value")], vec![None]],
    ));
    assert_eq!(widths, vec!["a rather longer value".len()]);
    let widths = column_characters(&result(&["n"], vec![vec![Some("héé")], vec![None]]));
    assert_eq!(widths, vec![4]);
}

#[test]
fn the_header_widens_a_column_of_short_values_by_characters() {
    let widths = column_characters(&result(&["a_column_with_a_long_name"], vec![vec![Some("1")]]));
    assert_eq!(widths, vec!["a_column_with_a_long_name".len()]);
}

#[test]
fn only_the_first_rows_are_counted() {
    let sampled = "a twenty char value.";
    let long = "x".repeat(300);
    let mut rows: Vec<Vec<Option<&str>>> = vec![vec![Some(sampled)]; SAMPLE_ROWS];
    rows.push(vec![Some(long.as_str())]);
    let widths = column_characters(&result(&["value"], rows));
    assert_eq!(widths, vec![sampled.len()]);
}

#[test]
fn a_short_row_counts_nothing_for_a_missing_cell() {
    let widths = column_characters(&result(&["a", "bb"], vec![vec![Some("xyz")]]));
    assert_eq!(widths, vec![3, 2]);
}

/// Rough advance width of one character in the grid's font.
const CHARACTER_WIDTH: f32 = 7.2;
/// Cell padding and borders either side of the text.
const CELL_PADDING: f32 = 18.;
const MIN_COLUMN_WIDTH: f32 = 56.;
const MAX_COLUMN_WIDTH: f32 = 420.;

/// Pixel widths from the library's character counts, as the grid sizes
/// its columns.
fn measure(result: &QueryResult) -> Vec<f32> {
    column_characters(result)
        .into_iter()
        .map(|characters| {
            (characters as f32 * CHARACTER_WIDTH + CELL_PADDING)
                .clamp(MIN_COLUMN_WIDTH, MAX_COLUMN_WIDTH)
        })
        .collect()
}

#[test]
fn layout_narrow_columns_get_the_minimum_width() {
    let widths = measure(&result(&["id"], vec![vec![Some("1")], vec![Some("2")]]));
    assert_eq!(widths, [MIN_COLUMN_WIDTH]);
}

#[test]
fn layout_wide_values_are_capped() {
    let long = "x".repeat(500);
    let widths = measure(&result(&["blob"], vec![vec![Some(long.as_str())]]));
    assert_eq!(widths, [MAX_COLUMN_WIDTH]);
}

#[test]
fn layout_width_follows_the_longest_sampled_value() {
    let widths = measure(&result(
        &["name"],
        vec![vec![Some("ada")], vec![Some("a rather longer value")], vec![None]],
    ));
    let expected = "a rather longer value".len() as f32 * CHARACTER_WIDTH + CELL_PADDING;
    assert_eq!(widths, [expected]);
}

#[test]
fn layout_the_header_widens_a_column_of_short_values() {
    let widths = measure(&result(&["a_column_with_a_long_name"], vec![vec![Some("1")]]));
    let expected = "a_column_with_a_long_name".len() as f32 * CHARACTER_WIDTH + CELL_PADDING;
    assert_eq!(widths, [expected]);
}

#[test]
fn layout_only_the_first_rows_are_sampled() {
    let sampled = "a twenty char value.";
    let long = "x".repeat(300);
    let mut rows: Vec<Vec<Option<&str>>> = vec![vec![Some(sampled)]; SAMPLE_ROWS];
    rows.push(vec![Some(long.as_str())]);
    let widths = measure(&result(&["value"], rows));
    assert_eq!(
        widths,
        [sampled.len() as f32 * CHARACTER_WIDTH + CELL_PADDING],
        "a long value past the sample should not widen the column"
    );
}

#[test]
fn data_grid_narrow_columns_get_the_minimum_width() {
    let widths = measure(&result(&["id"], vec![vec![Some("1")], vec![Some("2")]]));
    assert_eq!(widths, [MIN_COLUMN_WIDTH]);
}

#[test]
fn data_grid_wide_values_are_capped() {
    let long = "x".repeat(500);
    let widths = measure(&result(&["blob"], vec![vec![Some(long.as_str())]]));
    assert_eq!(widths, [MAX_COLUMN_WIDTH]);
}

#[test]
fn data_grid_width_follows_the_longest_sampled_value() {
    let widths = measure(&result(
        &["name"],
        vec![vec![Some("ada")], vec![Some("a rather longer value")], vec![None]],
    ));
    let expected = "a rather longer value".len() as f32 * CHARACTER_WIDTH + CELL_PADDING;
    assert_eq!(widths, [expected]);
}

#[test]
fn data_grid_the_header_widens_a_column_of_short_values() {
    let widths = measure(&result(&["a_column_with_a_long_name"], vec![vec![Some("1")]]));
    let expected = "a_column_with_a_long_name".len() as f32 * CHARACTER_WIDTH + CELL_PADDING;
    assert_eq!(widths, [expected]);
}

#[test]
fn data_grid_only_the_first_rows_are_sampled() {
    let sampled = "a twenty char value.";
    let long = "x".repeat(300);
    let mut rows: Vec<Vec<Option<&str>>> = vec![vec![Some(sampled)]; SAMPLE_ROWS];
    rows.push(vec![Some(long.as_str())]);
    let widths = measure(&result(&["value"], rows));
    assert_eq!(
        widths,
        [sampled.len() as f32 * CHARACTER_WIDTH + CELL_PADDING],
        "a long value past the sample should not widen the column"
    );
}
