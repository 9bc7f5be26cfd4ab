//! Hints: the run lengths of each row and column, written out as text.
use crate::grid::{column, is_square};
use crate::runs::{line_runs, lemma_runs_of_empty_line, lemma_runs_of_full_line, runs};
use crate::text::decimal;
use crate::text::{join_runs, joined};
use vstd::prelude::*;

verus! {

/// What stands between two run lengths in the hint of a row: one space.
pub open spec fn row_separator() -> Seq<char> {
    seq![' ']
}

/// What stands between two run lengths in the hint of a column: one line
/// break, so that the lengths stack above the column.
pub open spec fn column_separator() -> Seq<char> {
    seq!['\n']
}

/// The number of cells in the first row of `grid`, or zero where it has none.
pub open spec fn width_of(grid: Seq<Seq<bool>>) -> nat {
    if grid.len() == 0 {
        0
    } else {
        grid[0].len()
    }
}

/// The hint of each row of `grid`, from the top row down.
pub open spec fn row_hint_texts(grid: Seq<Seq<bool>>) -> Seq<Seq<char>> {
    Seq::new(grid.len(), |r: int| joined(runs(grid[r]), row_separator()))
}

/// The hint of each column of `grid`, from the left column on.
pub open spec fn column_hint_texts(grid: Seq<Seq<bool>>) -> Seq<Seq<char>> {
    Seq::new(width_of(grid), |c: int| joined(runs(column(grid, c)), column_separator()))
}

/// The hint of one row: its run lengths with a space between them. A row
/// without a filled cell has the empty hint.
pub fn row_hint(line: &Vec<bool>) -> (hint: String)
    ensures
        hint@ == joined(runs(line@), row_separator()),
{
    proof {
        reveal_strlit(" ");
        assert(" "@ =~= row_separator());
    }
    let lengths = line_runs(line);
    join_runs(&lengths, " ")
}

/// The hint of one column: its run lengths, one to a line. A column without
/// a filled cell has the empty hint.
pub fn column_hint(line: &Vec<bool>) -> (hint: String)
    ensures
        hint@ == joined(runs(line@), column_separator()),
{
    proof {
        reveal_strlit("\n");
        assert("\n"@ =~= column_separator());
    }
    let lengths = line_runs(line);
    join_runs(&lengths, "\n")
}

/// A grid has one row hint for each row, and a square grid one column hint
/// for each column, which is as many.
pub proof fn lemma_hint_counts(grid: Seq<Seq<bool>>)
    requires
        is_square(grid),
    ensures
        row_hint_texts(grid).len() == grid.len(),
        column_hint_texts(grid).len() == grid.len(),
{
}

/// In a square grid without a filled cell every hint is the empty text.
pub proof fn lemma_hints_of_empty_grid(grid: Seq<Seq<bool>>)
    requires
        is_square(grid),
        forall|r: int, c: int| 0 <= r < grid.len() && 0 <= c < grid.len() ==> !grid[r][c],
    ensures
        forall|i: int|
            0 <= i < grid.len() ==> #[trigger] row_hint_texts(grid)[i] == Seq::<char>::empty(),
        forall|i: int|
            0 <= i < grid.len() ==> #[trigger] column_hint_texts(grid)[i] == Seq::<char>::empty(),
{
    assert forall|i: int| 0 <= i < grid.len() implies #[trigger] row_hint_texts(grid)[i]
        == Seq::<char>::empty() by {
        assert(grid[i].len() == grid.len());
        lemma_runs_of_empty_line(grid[i]);
    }
    assert forall|i: int| 0 <= i < grid.len() implies #[trigger] column_hint_texts(grid)[i]
        == Seq::<char>::empty() by {
        lemma_runs_of_empty_line(column(grid, i));
    }
}

/// In a square grid of filled cells only, every hint is the number of rows
/// in decimal.
pub proof fn lemma_hints_of_full_grid(grid: Seq<Seq<bool>>)
    requires
        is_square(grid),
        forall|r: int, c: int| 0 <= r < grid.len() && 0 <= c < grid.len() ==> grid[r][c],
    ensures
        forall|i: int|
            0 <= i < grid.len() ==> #[trigger] row_hint_texts(grid)[i] == decimal(grid.len()),
        forall|i: int|
            0 <= i < grid.len() ==> #[trigger] column_hint_texts(grid)[i] == decimal(grid.len()),
{
    assert forall|i: int| 0 <= i < grid.len() implies #[trigger] row_hint_texts(grid)[i]
        == decimal(grid.len()) by {
        assert(grid[i].len() == grid.len());
        lemma_runs_of_full_line(grid[i]);
    }
    assert forall|i: int| 0 <= i < grid.len() implies #[trigger] column_hint_texts(grid)[i]
        == decimal(grid.len()) by {
        lemma_runs_of_full_line(column(grid, i));
    }
}

/// The hints are fixed by the grid: any two derivations of the hints of one
/// grid hold the same texts in the same order.
pub proof fn lemma_hints_repeatable(
    grid: Seq<Seq<bool>>,
    first_rows: Vec<String>,
    second_rows: Vec<String>,
    first_columns: Vec<String>,
    second_columns: Vec<String>,
)
    requires
        first_rows.deep_view() == row_hint_texts(grid),
        second_rows.deep_view() == row_hint_texts(grid),
        first_columns.deep_view() == column_hint_texts(grid),
        second_columns.deep_view() == column_hint_texts(grid),
    ensures
        first_rows.deep_view() == second_rows.deep_view(),
        first_columns.deep_view() == second_columns.deep_view(),
{
}

} // verus!
