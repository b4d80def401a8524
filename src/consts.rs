use vstd::prelude::*;

verus! {

/// Number of rows on the board.
pub const ROWS: usize = 8;

/// Number of columns on the board.
pub const COLS: usize = 8;

} // verus!
