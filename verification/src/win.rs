//! Win detection: does the most recently placed piece complete a run of
//! four same-owner cells along one of the four board axes?
//!
//! On the flat grid one step along an axis is a fixed index stride:
//! 1 for horizontal, 6 for the up-right diagonal, 7 for vertical, 8 for
//! the down-right diagonal. Index bounds alone do not make a stride step
//! honest: adding 1 to the rightmost cell of a row lands on the leftmost
//! cell of the next row. Every stride step is therefore paired with a
//! column-based wrap guard, and the specification below defines a genuine
//! step as one that moves exactly one place along the axis geometrically.

use vstd::prelude::*;
use crate::grid::{Cell, col_of};

verus! {

/// By how many columns one forward stride step moves along axis `d`.
pub open spec fn col_shift(d: int) -> int {
    if d == 6 {
        -1
    } else if d == 7 {
        0
    } else {
        1
    }
}

/// Indices `i` and `i + d` are neighbours on the board along axis `d`:
/// both in bounds, and the stride moves exactly one place along the axis
/// instead of wrapping across a row boundary.
pub open spec fn step_ok(d: int, i: int) -> bool {
    &&& 0 <= i
    &&& i + d < 42
    &&& col_of(i + d) == col_of(i) + col_shift(d)
}

/// Four cells starting at `s`, spaced `d` apart, are pairwise neighbours
/// along axis `d` and all hold the same value as the first.
pub open spec fn line_at(g: Seq<Cell>, d: int, s: int) -> bool {
    &&& step_ok(d, s)
    &&& step_ok(d, s + d)
    &&& step_ok(d, s + 2 * d)
    &&& g[s + d] == g[s]
    &&& g[s + 2 * d] == g[s]
    &&& g[s + 3 * d] == g[s]
}

/// Some run of four along axis `d` passes through `pos`; `pos` may stand
/// anywhere within the run.
pub open spec fn axis_win_at(g: Seq<Cell>, pos: int, d: int) -> bool {
    ||| line_at(g, d, pos)
    ||| line_at(g, d, pos - d)
    ||| line_at(g, d, pos - 2 * d)
    ||| line_at(g, d, pos - 3 * d)
}

/// The placement at `pos` completes a win: `pos` is occupied and lies on a
/// run of four same-owner neighbouring cells along one of the four axes.
/// On the vertical axis only the run downward from `pos` counts: a piece
/// falls on top of its column, so a vertical win is always anchored at the
/// top cell of the run.
pub open spec fn has_win(g: Seq<Cell>, pos: int) -> bool {
    &&& g[pos] != Cell::Blank
    &&& {
        ||| axis_win_at(g, pos, 1)
        ||| axis_win_at(g, pos, 6)
        ||| line_at(g, 7, pos)
        ||| axis_win_at(g, pos, 8)
    }
}

/// What one scan step tests of a candidate index `pos2`: it holds the same
/// value as the anchor and its column lies within three of the anchor's.
spec fn scan_ok(g: Seq<Cell>, pos: int, pos2: int) -> bool {
    &&& (if col_of(pos) >= col_of(pos2) {
        col_of(pos) - col_of(pos2)
    } else {
        col_of(pos2) - col_of(pos)
    }) < 4
    &&& g[pos2] == g[pos]
}

/// The `k`-th cell behind the anchor extends the backward scan.
spec fn back_ext(g: Seq<Cell>, pos: int, d: int, k: int) -> bool {
    pos - k * d >= 0 && scan_ok(g, pos, pos - k * d)
}

/// The backward scan has accepted the first `b` cells behind the anchor.
spec fn back_chain(g: Seq<Cell>, pos: int, d: int, b: int) -> bool {
    &&& (b >= 1 ==> back_ext(g, pos, d, 1))
    &&& (b >= 2 ==> back_ext(g, pos, d, 2))
    &&& (b >= 3 ==> back_ext(g, pos, d, 3))
}

/// The `k`-th cell ahead of the anchor extends the forward scan.
spec fn fwd_ext(g: Seq<Cell>, pos: int, d: int, k: int) -> bool {
    pos + k * d < 42 && scan_ok(g, pos, pos + k * d)
}

/// The forward scan has accepted the first `f` cells ahead of the anchor.
spec fn fwd_chain(g: Seq<Cell>, pos: int, d: int, f: int) -> bool {
    &&& (f >= 1 ==> fwd_ext(g, pos, d, 1))
    &&& (f >= 2 ==> fwd_ext(g, pos, d, 2))
    &&& (f >= 3 ==> fwd_ext(g, pos, d, 3))
}

/// Within three stride steps of the anchor, the column-distance guard of
/// the scan picks out exactly the geometric steps: a candidate `k` strides
/// from the anchor sits within three columns of it iff its column is
/// exactly `k` column shifts away, i.e. iff no row boundary was crossed.
proof fn lemma_guard_is_geometric(pos: int, pos2: int, d: int, k: int)
    requires
        d == 1 || d == 6 || d == 7 || d == 8,
        1 <= k <= 3,
        0 <= pos < 42,
        0 <= pos2 < 42,
        pos2 == pos - k * d || pos2 == pos + k * d,
    ensures
        ((if col_of(pos) >= col_of(pos2) {
            col_of(pos) - col_of(pos2)
        } else {
            col_of(pos2) - col_of(pos)
        }) < 4) <==> (if pos2 == pos - k * d {
            col_of(pos2) == col_of(pos) - k * col_shift(d)
        } else {
            col_of(pos2) == col_of(pos) + k * col_shift(d)
        }),
{
    assert(0 <= pos % 7 < 7);
    assert(0 <= pos2 % 7 < 7);
    assert((pos2 - pos) % 7 == (pos2 % 7 - pos % 7) % 7) by {
        vstd::arithmetic::div_mod::lemma_sub_mod_noop(pos2, pos, 7);
    }
}

/// Tests the scan guard for candidate `pos2`: same owner as the anchor and
/// within three columns of it.
fn scan_step(grid: &[Cell; 42], pos: usize, pos2: usize) -> (accept: bool)
    requires
        pos < 42,
        pos2 < 42,
    ensures
        accept == scan_ok(grid@, pos as int, pos2 as int),
{
    let c1 = pos % 7;
    let c2 = pos2 % 7;
    let dist = if c1 >= c2 {
        c1 - c2
    } else {
        c2 - c1
    };
    dist < 4 && grid[pos2] == grid[pos]
}

/// Counts how many consecutive cells behind the anchor, up to three, pass
/// the backward scan, and reports the first one that did not.
fn count_back(grid: &[Cell; 42], pos: usize, step: usize) -> (b: usize)
    requires
        pos < 42,
        step == 1 || step == 6 || step == 8,
    ensures
        b <= 3,
        back_chain(grid@, pos as int, step as int, b as int),
        b < 3 ==> !back_ext(grid@, pos as int, step as int, b as int + 1),
{
    let mut b: usize = 0;
    let mut pos2: usize = pos;
    loop
        invariant
            pos < 42,
            pos2 <= pos,
            step == 1 || step == 6 || step == 8,
            b <= 3,
            pos2 == pos - b * step,
            back_chain(grid@, pos as int, step as int, b as int),
        ensures
            b <= 3,
            back_chain(grid@, pos as int, step as int, b as int),
            b < 3 ==> !back_ext(grid@, pos as int, step as int, b as int + 1),
        decreases 3 - b,
    {
        if b == 3 {
            break ;
        }
        if pos2 < step {
            break ;
        }
        let nxt = pos2 - step;
        if !scan_step(grid, pos, nxt) {
            break ;
        }
        pos2 = nxt;
        b = b + 1;
    }
    b
}

/// Counts how many consecutive cells ahead of the anchor, up to `cap`,
/// pass the forward scan, and reports the first one that did not.
fn count_fwd(grid: &[Cell; 42], pos: usize, step: usize, cap: usize) -> (f: usize)
    requires
        pos < 42,
        step == 1 || step == 6 || step == 7 || step == 8,
        cap <= 3,
    ensures
        f <= cap,
        fwd_chain(grid@, pos as int, step as int, f as int),
        f < cap ==> !fwd_ext(grid@, pos as int, step as int, f as int + 1),
{
    let mut f: usize = 0;
    let mut pos2: usize = pos;
    loop
        invariant
            pos < 42,
            pos2 < 42,
            step == 1 || step == 6 || step == 7 || step == 8,
            cap <= 3,
            f <= cap,
            pos2 == pos + f * step,
            fwd_chain(grid@, pos as int, step as int, f as int),
        ensures
            f <= cap,
            fwd_chain(grid@, pos as int, step as int, f as int),
            f < cap ==> !fwd_ext(grid@, pos as int, step as int, f as int + 1),
        decreases cap - f,
    {
        if f == cap {
            break ;
        }
        let nxt = pos2 + step;
        if nxt >= 42 {
            break ;
        }
        if !scan_step(grid, pos, nxt) {
            break ;
        }
        pos2 = nxt;
        f = f + 1;
    }
    f
}

/// A maximal pair of scan counts decides an axis: the anchor lies on a run
/// of four along axis `d` exactly when the backward and forward scans
/// together accept three cells.
proof fn lemma_scan_counts_decide_axis(g: Seq<Cell>, pos: int, d: int, b: int, f: int)
    requires
        g.len() == 42,
        0 <= pos < 42,
        d == 1 || d == 6 || d == 8,
        0 <= b <= 3,
        0 <= f,
        b + f <= 3,
        back_chain(g, pos, d, b),
        fwd_chain(g, pos, d, f),
        b < 3 ==> !back_ext(g, pos, d, b + 1),
        b + f < 3 ==> !fwd_ext(g, pos, d, f + 1),
    ensures
        (b + f == 3) == axis_win_at(g, pos, d),
{
    if b >= 1 {
        lemma_guard_is_geometric(pos, pos - 1 * d, d, 1);
    }
    if b >= 2 {
        lemma_guard_is_geometric(pos, pos - 2 * d, d, 2);
    }
    if b >= 3 {
        lemma_guard_is_geometric(pos, pos - 3 * d, d, 3);
    }
    if f >= 1 {
        lemma_guard_is_geometric(pos, pos + 1 * d, d, 1);
    }
    if f >= 2 {
        lemma_guard_is_geometric(pos, pos + 2 * d, d, 2);
    }
    if f >= 3 {
        lemma_guard_is_geometric(pos, pos + 3 * d, d, 3);
    }
    if b + f == 3 {
        // The accepted cells pos - b*d .. pos + f*d are a run of four.
        assert(line_at(g, d, pos - b * d));
    }
    if axis_win_at(g, pos, d) {
        // Some run of four holds pos at offset j; its cells pass the scan
        // guards, so the scans cannot both have stopped short of it.
        if line_at(g, d, pos) {
            lemma_line_feeds_scans(g, pos, d, 0, b, f);
        } else if line_at(g, d, pos - d) {
            lemma_line_feeds_scans(g, pos, d, 1, b, f);
        } else if line_at(g, d, pos - 2 * d) {
            lemma_line_feeds_scans(g, pos, d, 2, b, f);
        } else {
            lemma_line_feeds_scans(g, pos, d, 3, b, f);
        }
    }
}

/// A run of four through the anchor at backward offset `j` makes each of
/// its cells acceptable to the scans, so maximal scan counts reach it.
proof fn lemma_line_feeds_scans(g: Seq<Cell>, pos: int, d: int, j: int, b: int, f: int)
    requires
        g.len() == 42,
        0 <= pos < 42,
        d == 1 || d == 6 || d == 8,
        0 <= j <= 3,
        line_at(g, d, pos - j * d),
        0 <= b <= 3,
        0 <= f,
        b + f <= 3,
        b < 3 ==> !back_ext(g, pos, d, b + 1),
        b + f < 3 ==> !fwd_ext(g, pos, d, f + 1),
    ensures
        b + f == 3,
{
    let s = pos - j * d;
    assert(col_of(s + d) == col_of(s) + col_shift(d));
    assert(col_of(s + 2 * d) == col_of(s + d) + col_shift(d));
    assert(col_of(s + 3 * d) == col_of(s + 2 * d) + col_shift(d));
    if j >= 1 {
        lemma_guard_is_geometric(pos, pos - 1 * d, d, 1);
        assert(back_ext(g, pos, d, 1));
    }
    if j >= 2 {
        lemma_guard_is_geometric(pos, pos - 2 * d, d, 2);
        assert(back_ext(g, pos, d, 2));
    }
    if j >= 3 {
        lemma_guard_is_geometric(pos, pos - 3 * d, d, 3);
        assert(back_ext(g, pos, d, 3));
    }
    if j <= 2 {
        lemma_guard_is_geometric(pos, pos + 1 * d, d, 1);
        assert(fwd_ext(g, pos, d, 1));
    }
    if j <= 1 {
        lemma_guard_is_geometric(pos, pos + 2 * d, d, 2);
        assert(fwd_ext(g, pos, d, 2));
    }
    if j == 0 {
        lemma_guard_is_geometric(pos, pos + 3 * d, d, 3);
        assert(fwd_ext(g, pos, d, 3));
    }
    assert(b >= j);
    assert(b + f >= 3);
}

/// A maximal forward scan count decides the vertical axis: the three cells
/// straight below the anchor match it exactly when the scan accepts three.
proof fn lemma_fwd_scan_decides_vertical(g: Seq<Cell>, pos: int, f: int)
    requires
        g.len() == 42,
        0 <= pos < 42,
        0 <= f <= 3,
        fwd_chain(g, pos, 7, f),
        f < 3 ==> !fwd_ext(g, pos, 7, f + 1),
    ensures
        (f == 3) == line_at(g, 7, pos),
{
    assert((pos + 7) % 7 == pos % 7 && (pos + 14) % 7 == pos % 7 && (pos + 21) % 7 == pos % 7)
        by {
        vstd::arithmetic::div_mod::lemma_mod_add_multiples_vanish(pos, 7);
        vstd::arithmetic::div_mod::lemma_mod_add_multiples_vanish(pos + 7, 7);
        vstd::arithmetic::div_mod::lemma_mod_add_multiples_vanish(pos + 14, 7);
    }
}

/// Scans axis `d` both ways from the anchor, counting the run it sits on,
/// and reports whether that run reaches four.
fn axis_win(grid: &[Cell; 42], pos: usize, step: usize) -> (won: bool)
    requires
        pos < 42,
        step == 1 || step == 6 || step == 8,
    ensures
        won == axis_win_at(grid@, pos as int, step as int),
{
    let b = count_back(grid, pos, step);
    let f = count_fwd(grid, pos, step, 3 - b);
    proof {
        lemma_scan_counts_decide_axis(grid@, pos as int, step as int, b as int, f as int);
    }
    b + f >= 3
}

/// Scans straight down from the anchor and reports whether the three
/// cells below it all match it. Only the downward run counts: a piece
/// falls on top of its column, so a new vertical win always has the new
/// piece as the top cell of the run.
fn vertical_win(grid: &[Cell; 42], pos: usize) -> (won: bool)
    requires
        pos < 42,
    ensures
        won == line_at(grid@, 7, pos as int),
{
    let f = count_fwd(grid, pos, 7, 3);
    proof {
        lemma_fwd_scan_decides_vertical(grid@, pos as int, f as int);
    }
    f == 3
}

/// Did the piece most recently placed at `pos` complete a run of four?
/// True exactly when `pos` is occupied and lies on a run of four
/// same-owner neighbouring cells along one of the four axes (vertically,
/// on the run downward from `pos`).
pub fn winning(grid: [Cell; 42], pos: usize) -> (won: bool)
    requires
        pos < 42,
    ensures
        won == has_win(grid@, pos as int),
{
    if grid[pos] == Cell::Blank {
        return false;
    }
    if axis_win(&grid, pos, 1) {
        return true;
    }
    if axis_win(&grid, pos, 6) {
        return true;
    }
    if vertical_win(&grid, pos) {
        return true;
    }
    axis_win(&grid, pos, 8)
}

/// The wrap guard, stated of the board: four consecutive flat indices that
/// span a row boundary are never a horizontal run, whatever the cells
/// hold, because the step off the row's right edge is not a neighbour
/// step. A horizontal run of four always lies within a single row.
pub proof fn lemma_no_run_across_rows(g: Seq<Cell>, s: int)
    requires
        0 <= s,
        s + 3 < 42,
        s / 7 != (s + 3) / 7,
    ensures
        !line_at(g, 1, s),
{
}

} // verus!
