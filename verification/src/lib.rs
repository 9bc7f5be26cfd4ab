//! A nonogram engine: a hidden square grid of cells, the run-length hints
//! that describe its rows and columns, and the comparison of a player's
//! candidate grid against it.
pub mod board;
pub mod grid;
pub mod hints;
pub mod matrix;
pub mod puzzle;
pub mod random;
pub mod runs;
pub mod text;
