//! A 9×9 Sudoku base pattern that is shuffled by exchanging parallel lines
//! within one band, which keeps every row, column and block a permutation of
//! the digits 1 to 9.
pub mod grid;
pub mod laws;
pub mod line;
pub mod random;

pub use grid::{ExchangeError, SudokuMap};
pub use line::{MapLine, MapPoint};
pub use random::mk_two_lines;
