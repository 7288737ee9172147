//! Where the tiles go on screen.

use vstd::prelude::*;

verus! {

/// Number of tiles in one row of the board.
pub const COLUMNS: usize = 4;

/// Whether the tile at `index` is the last of its row, so that the next tile
/// starts a new one.
pub open spec fn is_row_end(index: int) -> bool {
    (index + 1) % (COLUMNS as int) == 0
}

/// Whether the host should break the row after drawing the tile at `index`.
pub fn ends_row(index: usize) -> (end: bool)
    ensures
        end == is_row_end(index as int),
{
    index % COLUMNS == COLUMNS - 1
}

} // verus!
