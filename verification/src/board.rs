//! The gravity-drop move: a piece dropped into a column comes to rest on
//! the lowest empty cell of that column, or the move is rejected when the
//! column is already full.

use vstd::prelude::*;
use crate::grid::{Cell, cell_at, col_of, column_full, row_of};

verus! {

/// The chosen column has no empty cell left; the move is rejected and the
/// board is unchanged. Recoverable: the caller picks another column.
#[derive(Copy, Clone, PartialEq, Eq, Structural, Debug)]
pub struct ColumnFullError;

/// Drops a piece of `player` into `column` (1-based, as players name
/// columns). The piece lands on the lowest empty cell of the column and
/// its flat index is returned; a full column rejects the move and leaves
/// the board untouched.
pub fn drop_piece(grid: &mut [Cell; 42], column: u8, player: Cell) -> (dropped: Result<
    usize,
    ColumnFullError,
>)
    requires
        1 <= column <= 7,
        player != Cell::Blank,
    ensures
        dropped is Ok <==> !column_full(old(grid)@, column - 1),
        match dropped {
            Ok(pos) => {
                &&& pos < 42
                &&& col_of(pos as int) == column - 1
                &&& old(grid)@[pos as int] == Cell::Blank
                &&& final(grid)@ == old(grid)@.update(pos as int, player)
                &&& forall|r: int|
                    row_of(pos as int) < r < 6 ==> #[trigger] cell_at(old(grid)@, r, column - 1)
                        != Cell::Blank
            },
            Err(_) => final(grid)@ == old(grid)@,
        },
{
    let c: usize = (column - 1) as usize;
    let mut rows_left: usize = 6;
    loop
        invariant
            c == column - 1,
            c < 7,
            rows_left <= 6,
            grid@ == old(grid)@,
            forall|r: int| rows_left <= r < 6 ==> cell_at(grid@, r, c as int) != Cell::Blank,
        decreases rows_left,
    {
        if rows_left == 0 {
            return Err(ColumnFullError);
        }
        let row = rows_left - 1;
        let pos = row * 7 + c;
        if grid[pos] == Cell::Blank {
            grid[pos] = player;
            assert(cell_at(old(grid)@, row as int, c as int) == Cell::Blank);
            return Ok(pos);
        }
        rows_left = row;
    }
}

} // verus!
