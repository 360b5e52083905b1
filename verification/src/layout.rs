//! Sizing a result's columns before it is drawn: the values are display
//! strings in a monospaced font, so a character count is enough to size a
//! column without shaping any text.

use vstd::prelude::*;
use vstd::string::StrSliceExecFns;
use crate::filter::rows_view;
use crate::query::QueryResult;
use crate::text;

verus! {

/// Rows read when sizing a column. Values further down are rare enough that
/// paying for them on every result would cost more than the odd clipped
/// cell.
pub const SAMPLE_ROWS: usize = 100;

/// Width, in characters, of the placeholder shown for SQL `NULL`.
pub const NULL_WIDTH: usize = 4;

/// How many characters the cell at `index` of `row` shows: its text, `NULL`
/// for no value, nothing where the row is short.
pub open spec fn cell_chars(row: Seq<Option<Seq<char>>>, index: int) -> nat {
    if 0 <= index < row.len() {
        match row[index] {
            Some(v) => v.len(),
            None => NULL_WIDTH as nat,
        }
    } else {
        0
    }
}

/// The widest of `base` and the cells at `index` of `rows`.
pub open spec fn widest(base: nat, rows: Seq<Seq<Option<Seq<char>>>>, index: int) -> nat
    decreases rows.len(),
{
    if rows.len() == 0 {
        base
    } else {
        let before = widest(base, rows.drop_last(), index);
        let w = cell_chars(rows.last(), index);
        if w > before {
            w
        } else {
            before
        }
    }
}

/// How many characters column `index` needs: its header, or the widest of
/// its first [`SAMPLE_ROWS`] values.
pub open spec fn column_chars(result: QueryResult, index: int) -> nat {
    let rows = rows_view(result.rows@);
    let sampled = if rows.len() > SAMPLE_ROWS {
        rows.take(SAMPLE_ROWS as int)
    } else {
        rows
    };
    widest(result.columns@[index]@.len(), sampled, index)
}

/// How many characters each column needs, in column order, read from its
/// header and its first [`SAMPLE_ROWS`] values.
pub fn column_characters(result: &QueryResult) -> (r: Vec<usize>)
    ensures
        r@.len() == result.columns@.len(),
        forall|i: int| 0 <= i < r@.len() ==> #[trigger] r@[i] as nat == column_chars(*result, i),
{
    let ghost rows = rows_view(result.rows@);
    let sample = if result.rows.len() > SAMPLE_ROWS {
        SAMPLE_ROWS
    } else {
        result.rows.len()
    };
    let ghost sampled = rows.take(sample as int);
    proof {
        if rows.len() <= SAMPLE_ROWS {
            assert(sampled =~= rows);
        }
    }
    let mut out: Vec<usize> = Vec::new();
    let mut i: usize = 0;
    while i < result.columns.len()
        invariant
            rows == rows_view(result.rows@),
            sample <= result.rows@.len(),
            sampled == rows.take(sample as int),
            sampled == (if rows.len() > SAMPLE_ROWS {
                rows.take(SAMPLE_ROWS as int)
            } else {
                rows
            }),
            i <= result.columns@.len(),
            out@.len() == i,
            forall|k: int| 0 <= k < i ==> #[trigger] out@[k] as nat == column_chars(*result, k),
        decreases result.columns@.len() - i,
    {
        let mut characters: usize = result.columns[i].as_str().unicode_len();
        let mut r: usize = 0;
        assert(sampled.take(0) =~= Seq::<Seq<Option<Seq<char>>>>::empty());
        while r < sample
            invariant
                rows == rows_view(result.rows@),
                sample <= result.rows@.len(),
                sampled == rows.take(sample as int),
                i < result.columns@.len(),
                r <= sample,
                characters as nat == widest(
                    result.columns@[i as int]@.len(),
                    sampled.take(r as int),
                    i as int,
                ),
            decreases sample - r,
        {
            let row = &result.rows[r];
            let width: usize = if i < row.len() {
                match &row[i] {
                    Some(value) => value.as_str().unicode_len(),
                    None => NULL_WIDTH,
                }
            } else {
                0
            };
            proof {
                assert(sampled.take(r + 1).drop_last() =~= sampled.take(r as int));
                assert(sampled.take(r + 1).last() == crate::grid::row_view(*row));
                assert(width as nat == cell_chars(crate::grid::row_view(*row), i as int));
            }
            if width > characters {
                characters = width;
            }
            r = r + 1;
        }
        proof {
            assert(sampled.take(sample as int) =~= sampled);
        }
        out.push(characters);
        i = i + 1;
    }
    out
}

} // verus!
