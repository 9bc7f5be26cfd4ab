//! The puzzle: a hidden square grid, its hints, and the comparison of a
//! candidate against it.
use crate::grid::{
    column, flatten_grid, flipped, has_width, is_square, lemma_flatten_uniform, lemma_rows_of,
    lemma_rows_of_flatten, rows_of,
};
use crate::matrix::{
    matrix_cell, matrix_eq, matrix_from_rows, matrix_height, matrix_rows, CellMatrix,
};
use crate::hints::{column_hint, column_hint_texts, row_hint, row_hint_texts};
use crate::random::{random_cell, seeded_cells, seeded_stream};
use vstd::pervasive::unreached;
use vstd::prelude::*;

verus! {

/// Why a grid was turned away.
#[derive(Debug, Clone, Copy, PartialEq, Eq, Structural)]
pub enum PuzzleError {
    /// A grid to build a puzzle from has no rows, or a row whose length is
    /// not the number of rows.
    InvalidDimensions,
    /// A candidate holds another number of cells than the hidden grid.
    DimensionMismatch,
}

/// A nonogram puzzle. It owns the hidden grid, which never changes.
#[derive(Debug)]
pub struct Puzzle {
    matrix: CellMatrix,
}

impl View for Puzzle {
    type V = Seq<Seq<bool>>;

    /// The hidden grid, row by row.
    closed spec fn view(&self) -> Seq<Seq<bool>> {
        matrix_rows(self.matrix)
    }
}

/// What comparing `candidate` with the hidden grid `hidden` gives: the
/// candidate's cells, read row by row and cut into rows as long as the hidden
/// grid's, are either the hidden grid or not; a candidate with another number
/// of cells is a `DimensionMismatch`.
pub open spec fn check_outcome(hidden: Seq<Seq<bool>>, candidate: Seq<Seq<bool>>) -> Result<
    bool,
    PuzzleError,
> {
    let cells = candidate.flatten();
    if cells.len() == hidden.len() * hidden.len() {
        Ok(rows_of(cells, hidden.len(), hidden.len()) == hidden)
    } else {
        Err(PuzzleError::DimensionMismatch)
    }
}

/// The grid of `n` rows and `n` columns that belongs to `seed`: the seed's
/// stream of cells, cut into rows.
pub open spec fn seeded_grid(n: nat, seed: u64) -> Seq<Seq<bool>> {
    rows_of(seeded_stream(seed, n * n), n, n)
}

/// A candidate that equals the hidden grid is found correct.
pub proof fn lemma_check_accepts_hidden_grid(hidden: Seq<Seq<bool>>)
    requires
        is_square(hidden),
    ensures
        check_outcome(hidden, hidden) == Ok::<bool, PuzzleError>(true),
{
    lemma_flatten_uniform(hidden, hidden.len());
    lemma_rows_of_flatten(hidden, hidden.len());
}

/// A candidate that differs from the hidden grid in one cell, and in no
/// other, is found wrong.
pub proof fn lemma_check_rejects_flipped_cell(hidden: Seq<Seq<bool>>, r: int, c: int)
    requires
        is_square(hidden),
        0 <= r < hidden.len(),
        0 <= c < hidden.len(),
    ensures
        check_outcome(hidden, flipped(hidden, r, c)) == Ok::<bool, PuzzleError>(false),
{
    let candidate = flipped(hidden, r, c);
    assert(hidden[r].len() == hidden.len());
    assert(has_width(candidate, hidden.len())) by {
        assert forall|k: int| 0 <= k < candidate.len() implies #[trigger] candidate[k].len()
            == hidden.len() by {
            assert(hidden[k].len() == hidden.len());
        }
    }
    lemma_flatten_uniform(candidate, hidden.len());
    lemma_rows_of_flatten(candidate, hidden.len());
    assert(candidate[r][c] != hidden[r][c]);
}

/// Two puzzles made from one seed, with one dimension, hide the same grid.
pub proof fn lemma_seeded_puzzles_agree(n: nat, seed: u64, first: Puzzle, second: Puzzle)
    requires
        first@ == seeded_grid(n, seed),
        second@ == seeded_grid(n, seed),
    ensures
        first@ == second@,
{
}

impl Puzzle {
    /// The hidden grid is square and has at least one cell.
    #[verifier::type_invariant]
    closed spec fn well_formed(&self) -> bool {
        is_square(matrix_rows(self.matrix))
    }

    /// The puzzle whose hidden grid has `n` rows and `n` columns and holds
    /// `cells`, read row by row. Refused with `InvalidDimensions` unless `n`
    /// is positive and `cells` holds `n * n` cells.
    pub fn from_cells(n: usize, cells: Vec<bool>) -> (made: Result<Puzzle, PuzzleError>)
        ensures
            made is Ok <==> n >= 1 && cells@.len() == n * n,
            made matches Ok(p) ==> p@ == rows_of(cells@, n as nat, n as nat),
            made matches Err(e) ==> e == PuzzleError::InvalidDimensions,
    {
        if n == 0 {
            return Err(PuzzleError::InvalidDimensions);
        }
        let len = cells.len();
        match n.checked_mul(n) {
            Some(total) => {
                if len != total {
                    return Err(PuzzleError::InvalidDimensions);
                }
            },
            None => {
                return Err(PuzzleError::InvalidDimensions);
            },
        }
        proof {
            lemma_rows_of(cells@, n as nat, n as nat);
        }
        let matrix = matrix_from_rows(n, n, &cells);
        Ok(Puzzle { matrix })
    }

    /// The puzzle whose hidden grid is `grid`. Refused with
    /// `InvalidDimensions` unless `grid` is square and has at least one row.
    pub fn new_from_grid(grid: Vec<Vec<bool>>) -> (made: Result<Puzzle, PuzzleError>)
        ensures
            made is Ok <==> is_square(grid.deep_view()),
            made matches Ok(p) ==> p@ == grid.deep_view(),
            made matches Err(e) ==> e == PuzzleError::InvalidDimensions,
    {
        let ghost rows = grid.deep_view();
        let n = grid.len();
        if n == 0 {
            return Err(PuzzleError::InvalidDimensions);
        }
        let mut r: usize = 0;
        while r < n
            invariant
                rows == grid.deep_view(),
                n == grid@.len(),
                r <= n,
                has_width(rows.take(r as int), n as nat),
            decreases n - r,
        {
            if grid[r].len() != n {
                assert(rows[r as int].len() != n);
                return Err(PuzzleError::InvalidDimensions);
            }
            assert(rows[r as int].len() == n);
            r = r + 1;
        }
        let cells = flatten_grid(&grid);
        proof {
            assert(rows.take(r as int) =~= rows);
            lemma_flatten_uniform(rows, n as nat);
            lemma_rows_of_flatten(rows, n as nat);
        }
        Puzzle::from_cells(n, cells)
    }

    /// `count` cells from the thread-local random generator, each filled or
    /// empty with equal chance.
    fn random_cells(count: usize) -> (cells: Vec<bool>)
        ensures
            cells@.len() == count,
    {
        let mut cells: Vec<bool> = Vec::new();
        let mut i: usize = 0;
        while i < count
            invariant
                i <= count,
                cells@.len() == i,
            decreases count - i,
        {
            cells.push(random_cell());
            i = i + 1;
        }
        cells
    }

    /// A random puzzle of `n` rows and `n` columns. Without a seed the cells
    /// are drawn from the thread-local random generator, each filled or
    /// empty with equal chance. With a seed they are the first `n * n` cells
    /// of the stream that belongs to the seed, read row by row: one seed,
    /// one puzzle.
    pub fn rand_new(n: usize, seed: Option<u64>) -> (made: Puzzle)
        requires
            n >= 1,
            n * n <= usize::MAX,
        ensures
            made@.len() == n,
            is_square(made@),
            seed matches Some(s) ==> {
                &&& seeded_stream(s, (n * n) as nat).len() == n * n
                &&& made@ == seeded_grid(n as nat, s)
                &&& made@.flatten() == seeded_stream(s, (n * n) as nat)
            },
    {
        let cells = match seed {
            Some(s) => seeded_cells(s, n * n),
            None => Puzzle::random_cells(n * n),
        };
        proof {
            lemma_rows_of(cells@, n as nat, n as nat);
        }
        match Puzzle::from_cells(n, cells) {
            Ok(made) => made,
            Err(_) => unreached(),
        }
    }

    /// Whether `solution` is the hidden grid. The cells of `solution` are
    /// read row by row; where their number is not that of the hidden grid,
    /// the answer is `DimensionMismatch`.
    pub fn check(&self, solution: Vec<Vec<bool>>) -> (verdict: Result<bool, PuzzleError>)
        ensures
            verdict == check_outcome(self@, solution.deep_view()),
    {
        proof {
            use_type_invariant(self);
        }
        let n = matrix_height(&self.matrix);
        let cells = flatten_grid(&solution);
        let len = cells.len();
        match n.checked_mul(n) {
            Some(total) => {
                if len != total {
                    return Err(PuzzleError::DimensionMismatch);
                }
            },
            None => {
                return Err(PuzzleError::DimensionMismatch);
            },
        }
        let other = matrix_from_rows(n, n, &cells);
        Ok(matrix_eq(&self.matrix, &other))
    }

    /// The cells of row `r`, from the left.
    fn row_cells(&self, r: usize) -> (line: Vec<bool>)
        requires
            r < self@.len(),
        ensures
            line@ == self@[r as int],
    {
        proof {
            use_type_invariant(self);
        }
        let n = matrix_height(&self.matrix);
        let mut line: Vec<bool> = Vec::new();
        let mut c: usize = 0;
        while c < n
            invariant
                is_square(self@),
                n == self@.len(),
                r < n,
                c <= n,
                line@ == self@[r as int].take(c as int),
            decreases n - c,
        {
            line.push(matrix_cell(&self.matrix, r, c));
            proof {
                assert(self@[r as int].take(c + 1) =~= self@[r as int].take(c as int).push(
                    self@[r as int][c as int],
                ));
            }
            c = c + 1;
        }
        proof {
            assert(self@[r as int].take(c as int) =~= self@[r as int]);
        }
        line
    }

    /// The cells of column `c`, from the top.
    fn column_cells(&self, c: usize) -> (line: Vec<bool>)
        requires
            c < self@.len(),
        ensures
            line@ == column(self@, c as int),
    {
        proof {
            use_type_invariant(self);
        }
        let n = matrix_height(&self.matrix);
        let mut line: Vec<bool> = Vec::new();
        let mut r: usize = 0;
        while r < n
            invariant
                is_square(self@),
                n == self@.len(),
                c < n,
                r <= n,
                line@ == column(self@, c as int).take(r as int),
            decreases n - r,
        {
            line.push(matrix_cell(&self.matrix, r, c));
            proof {
                assert(column(self@, c as int).take(r + 1) =~= column(self@, c as int).take(
                    r as int,
                ).push(self@[r as int][c as int]));
            }
            r = r + 1;
        }
        proof {
            assert(column(self@, c as int).take(r as int) =~= column(self@, c as int));
        }
        line
    }

    /// The hint of each row, from the top row down: the lengths of the
    /// row's runs of filled cells, in decimal, with one space between them.
    pub fn row_hints(&self) -> (hints: Vec<String>)
        ensures
            hints@.len() == self@.len(),
            hints.deep_view() == row_hint_texts(self@),
    {
        let n = matrix_height(&self.matrix);
        let mut hints: Vec<String> = Vec::new();
        let mut r: usize = 0;
        while r < n
            invariant
                n == self@.len(),
                r <= n,
                hints@.len() == r,
                forall|k: int| 0 <= k < r ==> (#[trigger] hints@[k])@ == row_hint_texts(self@)[k],
            decreases n - r,
        {
            let line = self.row_cells(r);
            hints.push(row_hint(&line));
            r = r + 1;
        }
        assert(hints.deep_view() =~= row_hint_texts(self@));
        hints
    }

    /// The hint of each column, from the left column on: the lengths of the
    /// column's runs of filled cells, in decimal, one to a line.
    pub fn col_hints(&self) -> (hints: Vec<String>)
        ensures
            hints@.len() == self@.len(),
            hints.deep_view() == column_hint_texts(self@),
    {
        proof {
            use_type_invariant(self);
        }
        let n = matrix_height(&self.matrix);
        let mut hints: Vec<String> = Vec::new();
        let mut c: usize = 0;
        while c < n
            invariant
                is_square(self@),
                n == self@.len(),
                c <= n,
                hints@.len() == c,
                forall|k: int|
                    0 <= k < c ==> (#[trigger] hints@[k])@ == column_hint_texts(self@)[k],
            decreases n - c,
        {
            let line = self.column_cells(c);
            hints.push(column_hint(&line));
            c = c + 1;
        }
        assert(hints.deep_view() =~= column_hint_texts(self@));
        hints
    }

    /// The number of rows, which is the number of columns and at least one.
    pub fn dimension(&self) -> (n: usize)
        ensures
            n == self@.len(),
            is_square(self@),
    {
        proof {
            use_type_invariant(self);
        }
        matrix_height(&self.matrix)
    }

    /// The hidden cell at row `r`, column `c`, where the grid has one there.
    pub fn cell(&self, r: usize, c: usize) -> (found: Option<bool>)
        ensures
            found is Some <==> r < self@.len() && c < self@.len(),
            found matches Some(filled) ==> filled == self@[r as int][c as int],
    {
        proof {
            use_type_invariant(self);
        }
        let n = matrix_height(&self.matrix);
        if r < n && c < n {
            Some(matrix_cell(&self.matrix, r, c))
        } else {
            None
        }
    }
}

} // verus!
