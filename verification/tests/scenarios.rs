use connect_four::board::drop_piece;
use connect_four::grid::Cell;
use connect_four::win::winning;

const ___: Cell = Cell::Blank;
const _O_: Cell = Cell::Player1;
const _X_: Cell = Cell::Player2;

#[test]
fn test_empty_grid_bottom_right_anchor() {
    let grid: [Cell; 42] = [___; 42];
    assert_eq!(winning(grid, 41), false);
}

#[test]
fn test_bottom_row_run_anchor_on_fourth() {
    let grid: [Cell; 42] = [
        ___, ___, ___, ___, ___, ___, ___, //
        ___, ___, ___, ___, ___, ___, ___, //
        ___, ___, ___, ___, ___, ___, ___, //
        ___, ___, ___, ___, ___, ___, ___, //
        ___, ___, ___, ___, ___, ___, ___, //
        _O_, _O_, _O_, _O_, _X_, _X_, _X_,
    ];
    assert_eq!(winning(grid, 38), true);
}

#[test]
fn test_vertical_stack_wins_only_on_fourth_drop() {
    // Column 3 filled bottom to top with O pieces: indices 37, 30, 23,
    // and finally 16. No win until the fourth lands on top.
    let mut grid: [Cell; 42] = [___; 42];
    for expected in [37usize, 30, 23] {
        let pos = drop_piece(&mut grid, 3, _O_).unwrap();
        assert_eq!(pos, expected);
        assert_eq!(winning(grid, pos), false);
    }
    let pos = drop_piece(&mut grid, 3, _O_).unwrap();
    assert_eq!(pos, 16);
    assert_eq!(winning(grid, pos), true);
}

#[test]
fn test_ascending_diagonal_chain_of_four() {
    // O pieces at 35, 29, 23, 17: a stride-6 chain. With the anchor
    // anywhere on the chain of four the win is reported.
    let grid: [Cell; 42] = [
        ___, ___, ___, ___, ___, ___, ___, //
        ___, ___, ___, ___, ___, ___, ___, //
        ___, ___, ___, _O_, ___, ___, ___, //
        ___, ___, _O_, _X_, ___, ___, ___, //
        ___, _O_, _X_, _X_, ___, ___, ___, //
        _O_, _X_, _O_, _X_, ___, ___, ___,
    ];
    assert_eq!(winning(grid, 17), true);
    assert_eq!(winning(grid, 35), true);
    assert_eq!(winning(grid, 29), true);
}

#[test]
fn test_ascending_diagonal_chain_of_three() {
    // The same configuration short of its fourth piece: the anchor is
    // only the third cell of the chain, so no win.
    let grid: [Cell; 42] = [
        ___, ___, ___, ___, ___, ___, ___, //
        ___, ___, ___, ___, ___, ___, ___, //
        ___, ___, ___, ___, ___, ___, ___, //
        ___, ___, _O_, _X_, ___, ___, ___, //
        ___, _O_, _X_, _X_, ___, ___, ___, //
        _O_, _X_, _O_, _X_, ___, ___, ___,
    ];
    assert_eq!(winning(grid, 23), false);
}

#[test]
fn test_row_wrap_is_not_a_horizontal_win() {
    // Four same-owner cells at flat indices 6, 7, 8, 9 span the rightmost
    // cell of the top row and the leftmost cells of the second row: never
    // a horizontal win, from whichever of the four the check starts.
    let grid: [Cell; 42] = [
        ___, ___, ___, ___, ___, ___, _O_, //
        _O_, _O_, _O_, ___, ___, ___, ___, //
        ___, ___, ___, ___, ___, ___, ___, //
        ___, ___, ___, ___, ___, ___, ___, //
        ___, ___, ___, ___, ___, ___, ___, //
        ___, ___, ___, ___, ___, ___, ___,
    ];
    assert_eq!(winning(grid, 6), false);
    assert_eq!(winning(grid, 7), false);
    assert_eq!(winning(grid, 8), false);
    assert_eq!(winning(grid, 9), false);
}
