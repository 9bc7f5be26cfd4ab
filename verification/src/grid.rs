//! Grids of cells as nested sequences: shape, flattening, and the player's
//! candidate grid.
use vstd::prelude::*;

verus! {

/// Whether every row of `grid` holds `width` cells.
pub open spec fn has_width(grid: Seq<Seq<bool>>, width: nat) -> bool {
    forall|r: int| 0 <= r < grid.len() ==> #[trigger] grid[r].len() == width
}

/// Whether `grid` has at least one row, and as many cells in each row as it
/// has rows.
pub open spec fn is_square(grid: Seq<Seq<bool>>) -> bool {
    grid.len() >= 1 && has_width(grid, grid.len())
}

/// The cells of column `c`, from the top row down.
pub open spec fn column(grid: Seq<Seq<bool>>, c: int) -> Seq<bool> {
    Seq::new(grid.len(), |r: int| grid[r][c])
}

/// `grid` with the cell at row `r`, column `c` inverted; `grid` itself where
/// it has no cell there.
pub open spec fn flipped(grid: Seq<Seq<bool>>, r: int, c: int) -> Seq<Seq<bool>> {
    if 0 <= r < grid.len() && 0 <= c < grid[r].len() {
        grid.update(r, grid[r].update(c, !grid[r][c]))
    } else {
        grid
    }
}

/// The grid of `size` rows and `size` columns without a filled cell.
pub open spec fn blank(size: nat) -> Seq<Seq<bool>> {
    Seq::new(size, |r: int| Seq::new(size, |c: int| false))
}

/// `cells` cut into `height` rows of `width` cells each, the first row first.
pub open spec fn rows_of(cells: Seq<bool>, height: nat, width: nat) -> Seq<Seq<bool>> {
    Seq::new(height, |r: int| cells.subrange(r * width, r * width + width))
}

/// A grid of `width` cells per row, flattened, holds `width` cells for each
/// row, with row `r`'s cells starting at `r * width`.
pub proof fn lemma_flatten_uniform(grid: Seq<Seq<bool>>, width: nat)
    requires
        has_width(grid, width),
    ensures
        grid.flatten().len() == grid.len() * width,
        forall|r: int|
            0 <= r < grid.len() ==> #[trigger] grid[r] == grid.flatten().subrange(
                r * width,
                r * width + width,
            ),
    decreases grid.len(),
{
    if grid.len() == 0 {
        assert(grid.flatten() =~= Seq::<bool>::empty());
    } else {
        let head = grid.drop_last();
        lemma_flatten_uniform(head, width);
        head.lemma_flatten_push(grid.last());
        assert(head.push(grid.last()) =~= grid);
        assert(grid.flatten() =~= head.flatten() + grid.last());
        assert(grid.len() * width == head.len() * width + width) by (nonlinear_arith)
            requires
                grid.len() == head.len() + 1,
        ;
        assert forall|r: int| 0 <= r < grid.len() implies #[trigger] grid[r]
            == grid.flatten().subrange(r * width, r * width + width) by {
            assert(0 <= r * width && r * width + width <= grid.len() * width)
                by (nonlinear_arith)
                requires
                    0 <= r < grid.len(),
            ;
            if r < head.len() {
                assert(r * width + width <= head.len() * width) by (nonlinear_arith)
                    requires
                        0 <= r < head.len(),
                ;
                assert(head[r] == grid[r]);
                assert(head.flatten().subrange(r * width, r * width + width)
                    =~= grid.flatten().subrange(r * width, r * width + width));
            } else {
                assert(grid[r] =~= grid.flatten().subrange(r * width, r * width + width));
            }
        }
    }
}

/// Cutting the flattened cells of a grid back into rows gives the grid.
pub proof fn lemma_rows_of_flatten(grid: Seq<Seq<bool>>, width: nat)
    requires
        has_width(grid, width),
    ensures
        rows_of(grid.flatten(), grid.len(), width) == grid,
{
    lemma_flatten_uniform(grid, width);
    assert(rows_of(grid.flatten(), grid.len(), width) =~= grid);
}

/// Cutting `height * width` cells into rows gives `height` rows of `width`
/// cells, which flatten to the same cells.
pub proof fn lemma_rows_of(cells: Seq<bool>, height: nat, width: nat)
    requires
        cells.len() == height * width,
    ensures
        rows_of(cells, height, width).len() == height,
        has_width(rows_of(cells, height, width), width),
        rows_of(cells, height, width).flatten() == cells,
{
    let grid = rows_of(cells, height, width);
    assert forall|r: int| 0 <= r < grid.len() implies #[trigger] grid[r].len() == width by {
        assert(0 <= r * width && r * width + width <= height * width) by (nonlinear_arith)
            requires
                0 <= r < height,
        ;
    }
    lemma_flatten_uniform(grid, width);
    let flat = grid.flatten();
    assert forall|i: int| 0 <= i < flat.len() implies flat[i] == cells[i] by {
        if width > 0 {
            let r = i / (width as int);
            let c = i % (width as int);
            assert(i == r * width + c && 0 <= c < width && 0 <= r < height)
                by (nonlinear_arith)
                requires
                    0 <= i < height * width,
                    width > 0,
                    r == i / (width as int),
                    c == i % (width as int),
            ;
            assert(r * width + width <= height * width) by (nonlinear_arith)
                requires
                    0 <= r < height,
            ;
            assert(grid[r] == flat.subrange(r * width, r * width + width));
            assert(flat.subrange(r * width, r * width + width)[c] == flat[i]);
            assert(grid[r][c] == cells[i]);
        } else {
            assert(height * width == 0) by (nonlinear_arith)
                requires
                    width == 0,
            ;
        }
    }
    assert(flat =~= cells);
}

/// The rows of a nested vector, seen as sequences, are its rows' views.
pub proof fn lemma_deep_rows(grid: Vec<Vec<bool>>)
    ensures
        grid.deep_view().len() == grid@.len(),
        forall|r: int| 0 <= r < grid@.len() ==> #[trigger] grid.deep_view()[r] == grid@[r]@,
{
    assert forall|r: int| 0 <= r < grid@.len() implies #[trigger] grid.deep_view()[r]
        == grid@[r]@ by {
        assert(grid.deep_view()[r] =~= grid@[r]@);
    }
}

/// Each cell of a sequence decides one cell of the grid it is cut into: two
/// sequences of `height * width` cells that differ give grids that differ.
pub proof fn lemma_rows_of_distinct_cells(
    first: Seq<bool>,
    second: Seq<bool>,
    height: nat,
    width: nat,
)
    requires
        first.len() == height * width,
        second.len() == height * width,
        first != second,
    ensures
        rows_of(first, height, width) != rows_of(second, height, width),
{
    lemma_rows_of(first, height, width);
    lemma_rows_of(second, height, width);
}

/// All the cells of `grid` in one vector, row after row.
pub fn flatten_grid(grid: &Vec<Vec<bool>>) -> (cells: Vec<bool>)
    ensures
        cells@ == grid.deep_view().flatten(),
{
    let ghost rows = grid.deep_view();
    let mut cells: Vec<bool> = Vec::new();
    let mut r: usize = 0;
    proof {
        assert(rows.take(0) =~= Seq::<Seq<bool>>::empty());
        assert(rows.take(0).flatten() =~= Seq::<bool>::empty());
    }
    while r < grid.len()
        invariant
            rows == grid.deep_view(),
            r <= grid@.len(),
            cells@ == rows.take(r as int).flatten(),
        decreases grid@.len() - r,
    {
        let row = &grid[r];
        let ghost before = cells@;
        let mut c: usize = 0;
        while c < row.len()
            invariant
                c <= row@.len(),
                cells@ == before + row@.take(c as int),
            decreases row@.len() - c,
        {
            cells.push(row[c]);
            proof {
                assert(row@.take(c + 1) =~= row@.take(c as int).push(row@[c as int]));
                assert(cells@ =~= before + row@.take(c + 1));
            }
            c = c + 1;
        }
        proof {
            assert(row@.take(c as int) =~= row@);
            assert(rows[r as int] =~= row@);
            rows.take(r as int).lemma_flatten_push(row@);
            assert(rows.take(r + 1) =~= rows.take(r as int).push(row@));
        }
        r = r + 1;
    }
    proof {
        assert(rows.take(r as int) =~= rows);
    }
    cells
}

/// A candidate grid of `size` rows and `size` columns with no cell marked.
pub fn init_solution(size: usize) -> (grid: Vec<Vec<bool>>)
    ensures
        grid.deep_view() == blank(size as nat),
{
    let mut grid: Vec<Vec<bool>> = Vec::new();
    let mut r: usize = 0;
    while r < size
        invariant
            r <= size,
            grid@.len() == r,
            forall|k: int| 0 <= k < r ==> (#[trigger] grid@[k])@ == blank(size as nat)[k],
        decreases size - r,
    {
        let mut line: Vec<bool> = Vec::new();
        let mut c: usize = 0;
        while c < size
            invariant
                c <= size,
                line@.len() == c,
                forall|k: int| 0 <= k < c ==> !line@[k],
            decreases size - c,
        {
            line.push(false);
            c = c + 1;
        }
        assert(line@ =~= blank(size as nat)[r as int]);
        grid.push(line);
        r = r + 1;
    }
    proof {
        lemma_deep_rows(grid);
        assert(grid.deep_view() =~= blank(size as nat));
    }
    grid
}

/// Inverts the mark at row `row`, column `col` of `candidate`. A place
/// outside the grid leaves it as it is.
pub fn toggle_cell(candidate: &mut Vec<Vec<bool>>, row: usize, col: usize)
    ensures
        final(candidate).deep_view() == flipped(old(candidate).deep_view(), row as int, col as int),
{
    if row < candidate.len() && col < candidate[row].len() {
        let mark = candidate[row][col];
        candidate[row][col] = !mark;
    }
    proof {
        lemma_deep_rows(*old(candidate));
        lemma_deep_rows(*candidate);
        assert(candidate.deep_view() =~~= flipped(
            old(candidate).deep_view(),
            row as int,
            col as int,
        ));
    }
}

} // verus!
