//! The dense boolean matrix that stores a puzzle's cells.
//!
//! The cells live in nalgebra's `DMatrix<bool>`. Nothing in this file is
//! proved: each function states what the nalgebra call in its body does, and
//! the rest of the crate is verified against those statements.
use crate::grid::rows_of;
use nalgebra::DMatrix;
use vstd::prelude::*;

verus! {

/// A dynamically sized matrix of cells, kept in nalgebra's `DMatrix<bool>`.
#[verifier::external_body]
#[derive(Debug)]
pub struct CellMatrix {
    cells: DMatrix<bool>,
}

/// What a matrix holds, row by row: as many rows as the matrix has, each as
/// long as the matrix is wide, with the cell at row `r` and column `c` at
/// `matrix_rows(m)[r][c]`.
pub uninterp spec fn matrix_rows(m: CellMatrix) -> Seq<Seq<bool>>;

/// `DMatrix::from_row_slice`: builds the matrix of `height` rows and `width`
/// columns whose cells, read row by row, are `cells`. nalgebra panics unless
/// the slice holds exactly `height * width` items.
#[verifier::external_body]
pub(crate) fn matrix_from_rows(height: usize, width: usize, cells: &Vec<bool>) -> (m: CellMatrix)
    requires
        cells@.len() == height * width,
    ensures
        matrix_rows(m) == rows_of(cells@, height as nat, width as nat),
{
    CellMatrix { cells: DMatrix::from_row_slice(height, width, cells.as_slice()) }
}

/// `Matrix::nrows`: the number of rows.
#[verifier::external_body]
pub(crate) fn matrix_height(m: &CellMatrix) -> (n: usize)
    ensures
        n == matrix_rows(*m).len(),
{
    m.cells.nrows()
}

/// Indexing a matrix by a `(row, column)` pair: the cell at that place.
/// nalgebra panics when either index is out of bounds.
#[verifier::external_body]
pub(crate) fn matrix_cell(m: &CellMatrix, r: usize, c: usize) -> (cell: bool)
    requires
        r < matrix_rows(*m).len(),
        c < matrix_rows(*m)[r as int].len(),
    ensures
        cell == matrix_rows(*m)[r as int][c as int],
{
    m.cells[(r, c)]
}

/// The `==` of two matrices, which is nalgebra's impl of `PartialEq` for
/// `Matrix`: whether they have the same shape and the same cell at every
/// place. Matrices of different shapes are unequal; the comparison does not
/// panic on them, as the inherent method `Matrix::eq` would. Two matrices
/// without rows may differ in width, which the rows do not show, so the first
/// must have a row.
#[verifier::external_body]
pub(crate) fn matrix_eq(a: &CellMatrix, b: &CellMatrix) -> (same: bool)
    requires
        matrix_rows(*a).len() > 0,
    ensures
        same == (matrix_rows(*a) == matrix_rows(*b)),
{
    a.cells == b.cells
}

} // verus!
