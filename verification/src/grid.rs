//! The board: 42 cells in row-major order, 6 rows of 7 columns, row 0 at
//! the top. Flat index `i` sits at row `i / 7`, column `i % 7`.

use vstd::prelude::*;

verus! {

/// One cell of the board: empty, or owned by one of the two players.
#[derive(Copy, Clone, PartialEq, Eq, Structural, Debug)]
pub enum Cell {
    Blank,
    Player1,
    Player2,
}

/// Row of flat index `i`; row 0 is the top of the board, row 5 the bottom.
pub open spec fn row_of(i: int) -> int {
    i / 7
}

/// Column of flat index `i`, between 0 and 6.
pub open spec fn col_of(i: int) -> int {
    i % 7
}

/// The cell of row `r`, column `c`, both 0-based.
pub open spec fn cell_at(g: Seq<Cell>, r: int, c: int) -> Cell {
    g[r * 7 + c]
}

/// No empty cell remains anywhere on the board.
pub open spec fn all_cells_taken(g: Seq<Cell>) -> bool {
    forall|i: int| 0 <= i < 42 ==> g[i] != Cell::Blank
}

/// Every cell of column `c` (0-based) is occupied: nothing more fits there.
pub open spec fn column_full(g: Seq<Cell>, c: int) -> bool {
    forall|r: int| 0 <= r < 6 ==> cell_at(g, r, c) != Cell::Blank
}

/// True iff no empty cell remains anywhere on the board, so that a match
/// that has no winner yet ends in a draw.
pub fn grid_full(grid: [Cell; 42]) -> (full: bool)
    ensures
        full == all_cells_taken(grid@),
{
    let mut i: usize = 0;
    while i < 42
        invariant
            i <= 42,
            forall|j: int| 0 <= j < i ==> grid@[j] != Cell::Blank,
        decreases 42 - i,
    {
        if grid[i] == Cell::Blank {
            return false;
        }
        i += 1;
    }
    true
}

/// The whole board is full exactly when each of the seven columns is full:
/// a draw is reached just when no column accepts another piece.
pub proof fn lemma_full_iff_every_column_full(g: Seq<Cell>)
    requires
        g.len() == 42,
    ensures
        all_cells_taken(g) <==> (forall|c: int| 0 <= c < 7 ==> column_full(g, c)),
{
    if forall|c: int| 0 <= c < 7 ==> column_full(g, c) {
        assert forall|i: int| 0 <= i < 42 implies g[i] != Cell::Blank by {
            let r = i / 7;
            let c = i % 7;
            assert(0 <= r < 6 && 0 <= c < 7);
            assert(column_full(g, c));
            assert(cell_at(g, r, c) != Cell::Blank);
            assert(r * 7 + c == i);
        }
    }
    if all_cells_taken(g) {
        assert forall|c: int| 0 <= c < 7 implies column_full(g, c) by {
            assert forall|r: int| 0 <= r < 6 implies cell_at(g, r, c) != Cell::Blank by {
                assert(0 <= r * 7 + c < 42);
            }
        }
    }
}

} // verus!
