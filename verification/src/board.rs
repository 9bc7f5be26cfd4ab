//! Where the grid lies on the screen, and which cell a click falls on.
use crate::grid::{flipped, toggle_cell};
use crate::puzzle::PuzzleError;
use vstd::prelude::*;

verus! {

/// The horizontal pixel position at which the first cell begins.
pub const GRID_LEFT: i32 = 500;

/// The vertical pixel position at which the first cell begins.
pub const GRID_TOP: i32 = 300;

/// The distance in pixels from the start of one cell to the start of the
/// next, the gap between them included.
pub const PIECE_SIZE: i32 = 80;

/// The width in pixels of the gap between two cells.
pub const BORDER: i32 = 20;

/// How many pixels before the first cell a click still counts for it.
pub const CLICK_MARGIN: i32 = 5;

/// The index along one axis of the cell that the pixel position `p` falls
/// on, for a grid of `n` cells that begins at `origin`: the distance from
/// the origin in whole cells, where that is less than `n`. The margin before
/// the origin belongs to the first cell; what lies before the margin or
/// after the last cell belongs to none.
pub open spec fn axis_cell(p: int, origin: int, n: nat) -> Option<usize> {
    if p < origin - CLICK_MARGIN {
        None
    } else if p < origin {
        if n > 0 {
            Some(0usize)
        } else {
            None
        }
    } else if (p - origin) / (PIECE_SIZE as int) < n {
        Some(((p - origin) / (PIECE_SIZE as int)) as usize)
    } else {
        None
    }
}

/// The cell of a grid of `n` by `n` cells that the pixel at `(x, y)` falls
/// on, as its row and its column: rows are counted down the screen along
/// `y`, columns across it along `x`.
pub open spec fn located(x: int, y: int, n: nat) -> Option<(usize, usize)> {
    match (axis_cell(y, GRID_TOP as int, n), axis_cell(x, GRID_LEFT as int, n)) {
        (Some(row), Some(col)) => Some((row, col)),
        _ => None,
    }
}

/// The pixel at which the mark of the cell at row `row`, column `col` is
/// drawn, as `(x, y)`.
pub open spec fn corner(row: nat, col: nat) -> (int, int) {
    (GRID_LEFT + col * PIECE_SIZE, GRID_TOP + row * PIECE_SIZE)
}

/// A click on the pixel where a cell's mark is drawn falls on that cell.
pub proof fn lemma_corner_is_located(row: usize, col: usize, n: nat)
    requires
        row < n,
        col < n,
    ensures
        located(corner(row as nat, col as nat).0, corner(row as nat, col as nat).1, n) == Some(
            (row, col),
        ),
{
    assert((col * PIECE_SIZE) / (PIECE_SIZE as int) == col) by (nonlinear_arith);
    assert((row * PIECE_SIZE) / (PIECE_SIZE as int) == row) by (nonlinear_arith);
    assert(col * PIECE_SIZE >= 0 && row * PIECE_SIZE >= 0) by (nonlinear_arith);
}

fn axis_cell_of(p: i32, origin: i32, n: usize) -> (found: Option<usize>)
    requires
        CLICK_MARGIN <= origin,
    ensures
        found == axis_cell(p as int, origin as int, n as nat),
{
    if p < origin - CLICK_MARGIN {
        None
    } else if p < origin {
        if n > 0 {
            Some(0)
        } else {
            None
        }
    } else {
        let k: i32 = (p - origin) / PIECE_SIZE;
        let index = k as usize;
        if index < n {
            Some(index)
        } else {
            None
        }
    }
}

/// The row and column of the cell that a click at pixel `(x, y)` falls on,
/// in a grid of `n` by `n` cells; `None` for a click outside the grid.
pub fn locate_cell(x: i32, y: i32, n: usize) -> (place: Option<(usize, usize)>)
    ensures
        place == located(x as int, y as int, n as nat),
{
    match axis_cell_of(y, GRID_TOP, n) {
        Some(row) => match axis_cell_of(x, GRID_LEFT, n) {
            Some(col) => Some((row, col)),
            None => None,
        },
        None => None,
    }
}

/// The pixel at which the mark of the cell at row `row`, column `col` is
/// drawn, as `(x, y)`.
pub fn cell_corner(row: usize, col: usize) -> (at: (i32, i32))
    requires
        GRID_LEFT + col * PIECE_SIZE <= i32::MAX,
        GRID_TOP + row * PIECE_SIZE <= i32::MAX,
    ensures
        (at.0 as int, at.1 as int) == corner(row as nat, col as nat),
{
    let across: i32 = col as i32;
    let down: i32 = row as i32;
    assert(across * PIECE_SIZE == col * PIECE_SIZE && down * PIECE_SIZE == row * PIECE_SIZE);
    (GRID_LEFT + across * PIECE_SIZE, GRID_TOP + down * PIECE_SIZE)
}

/// `candidate` after a click at pixel `(x, y)`: the mark of the cell that
/// the click falls on is inverted, and a click outside the grid changes
/// nothing.
pub open spec fn clicked(candidate: Seq<Seq<bool>>, x: int, y: int) -> Seq<Seq<bool>> {
    match located(x, y, candidate.len()) {
        Some((row, col)) => flipped(candidate, row as int, col as int),
        None => candidate,
    }
}

/// Applies a click at pixel `(x, y)` to the player's grid.
pub fn click_cell(candidate: &mut Vec<Vec<bool>>, x: i32, y: i32)
    ensures
        final(candidate).deep_view() == clicked(old(candidate).deep_view(), x as int, y as int),
{
    match locate_cell(x, y, candidate.len()) {
        Some((row, col)) => {
            toggle_cell(candidate, row, col);
        },
        None => {},
    }
}

/// What the banner says of the verdict on the player's grid: that it is
/// correct, or, for every other verdict, that it is not yet.
pub open spec fn banner(verdict: Result<bool, PuzzleError>) -> Seq<char> {
    if verdict == Ok::<bool, PuzzleError>(true) {
        "Correct"@
    } else {
        "Not yet..."@
    }
}

/// The banner text for `verdict`.
pub fn status_text(verdict: Result<bool, PuzzleError>) -> (text: &'static str)
    ensures
        text@ == banner(verdict),
{
    match verdict {
        Ok(true) => "Correct",
        _ => "Not yet...",
    }
}

} // verus!
