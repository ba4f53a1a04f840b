//! The mathematical model of the simulation.
//!
//! A board is a sequence of rows, each a sequence of cells. Everything the
//! executable types promise is stated over the functions of this module.

use crate::cell::CellState;
use vstd::arithmetic::div_mod::{
    lemma_fundamental_div_mod, lemma_fundamental_div_mod_converse, lemma_mod_multiples_vanish,
    lemma_small_mod,
};
use vstd::prelude::*;

verus! {

/// A rectangular matrix with at least one row and one column.
pub open spec fn is_board(b: Seq<Seq<CellState>>) -> bool {
    &&& b.len() > 0
    &&& b[0].len() > 0
    &&& forall|r: int| 0 <= r < b.len() ==> (#[trigger] b[r]).len() == b[0].len()
}

/// Number of rows of a board.
pub open spec fn height(b: Seq<Seq<CellState>>) -> int {
    b.len() as int
}

/// Number of columns of a board.
pub open spec fn width(b: Seq<Seq<CellState>>) -> int {
    b[0].len() as int
}

/// Reduces any integer to an index in `0..n` by Euclidean remainder.
pub open spec fn wrap(i: int, n: int) -> int {
    i % n
}

/// The cell that the toroidal address `(row, col)` names.
pub open spec fn cell_at(b: Seq<Seq<CellState>>, row: int, col: int) -> CellState {
    b[wrap(row, height(b))][wrap(col, width(b))]
}

/// The board that differs from `b` in the one cell that `(row, col)` names.
pub open spec fn with_cell(
    b: Seq<Seq<CellState>>,
    row: int,
    col: int,
    state: CellState,
) -> Seq<Seq<CellState>> {
    let r = wrap(row, height(b));
    let c = wrap(col, width(b));
    b.update(r, b[r].update(c, state))
}

/// 1 where the addressed cell is alive, else 0.
pub open spec fn live_at(b: Seq<Seq<CellState>>, row: int, col: int) -> int {
    if cell_at(b, row, col).alive() {
        1
    } else {
        0
    }
}

/// How many of the eight wrapped neighbours of `(row, col)` are alive.
pub open spec fn live_neighbors(b: Seq<Seq<CellState>>, row: int, col: int) -> int {
    live_at(b, row - 1, col - 1) + live_at(b, row - 1, col) + live_at(b, row - 1, col + 1)
        + live_at(b, row, col - 1) + live_at(b, row, col + 1) + live_at(b, row + 1, col - 1)
        + live_at(b, row + 1, col) + live_at(b, row + 1, col + 1)
}

/// The B3/S23 rule: a live cell survives with two or three live neighbours,
/// a dead cell is born with exactly three.
pub open spec fn next_state(state: CellState, neighbors: int) -> CellState {
    match state {
        CellState::Alive => if neighbors == 2 || neighbors == 3 {
            CellState::Alive
        } else {
            CellState::Dead
        },
        CellState::Dead => if neighbors == 3 {
            CellState::Alive
        } else {
            CellState::Dead
        },
    }
}

/// The state of `(row, col)` one generation after `b`.
pub open spec fn next_cell(b: Seq<Seq<CellState>>, row: int, col: int) -> CellState {
    next_state(cell_at(b, row, col), live_neighbors(b, row, col))
}

/// The generation that follows `b`: every cell is computed from `b` alone.
pub open spec fn next_board(b: Seq<Seq<CellState>>) -> Seq<Seq<CellState>> {
    Seq::new(b.len(), |r: int| Seq::new(b[0].len(), |c: int| next_cell(b, r, c)))
}

/// The board after `n` generations.
pub open spec fn generations(b: Seq<Seq<CellState>>, n: nat) -> Seq<Seq<CellState>>
    decreases n,
{
    if n == 0 {
        b
    } else {
        next_board(generations(b, (n - 1) as nat))
    }
}

/// A board of the given shape whose cells all hold `state`.
pub open spec fn uniform_board(rows: nat, cols: nat, state: CellState) -> Seq<Seq<CellState>> {
    Seq::new(rows, |r: int| Seq::new(cols, |c: int| state))
}

/// The smallest value of a random draw.
pub const DRAW_LOW: i32 = 0;

/// The end of the range of a random draw: draws are uniform over
/// `DRAW_LOW..DRAW_END`, the end excluded.
pub const DRAW_END: i32 = 3;

/// The draw that makes a cell alive when the grid is randomized.
pub const ALIVE_DRAW: i32 = 1;

/// The state that a random draw gives a cell: alive on `ALIVE_DRAW`, dead
/// on any other value.
pub open spec fn state_from_draw(draw: i32) -> CellState {
    if draw == ALIVE_DRAW {
        CellState::Alive
    } else {
        CellState::Dead
    }
}

/// The board that a sequence of draws describes, one draw per cell, row by
/// row. A cell for which the sequence holds no draw is dead.
pub open spec fn drawn_board(rows: nat, cols: nat, draws: Seq<i32>) -> Seq<Seq<CellState>> {
    Seq::new(
        rows,
        |r: int|
            Seq::new(
                cols,
                |c: int|
                    if r * cols + c < draws.len() {
                        state_from_draw(draws[r * cols + c])
                    } else {
                        CellState::Dead
                    },
            ),
    )
}

/// Whether every cell of the board is dead.
pub open spec fn all_dead(b: Seq<Seq<CellState>>) -> bool {
    forall|r: int, c: int|
        0 <= r < b.len() && 0 <= c < b[r].len() ==> #[trigger] b[r][c] == CellState::Dead
}

/// A wrapped index always lies inside the board.
pub proof fn lemma_wrap_in_range(i: int, n: int)
    requires
        n > 0,
    ensures
        0 <= wrap(i, n) < n,
{
}

/// Addressing is periodic: moving by whole multiples of the board's height
/// and width names the same cell.
pub proof fn lemma_cell_at_periodic(b: Seq<Seq<CellState>>, row: int, col: int, k: int)
    requires
        is_board(b),
    ensures
        cell_at(b, row + k * height(b), col + k * width(b)) == cell_at(b, row, col),
{
    lemma_wrap_periodic(row, height(b), k);
    lemma_wrap_periodic(col, width(b), k);
}

/// Adding a multiple of `n` does not change the wrapped index.
pub proof fn lemma_wrap_periodic(i: int, n: int, k: int)
    requires
        n > 0,
    ensures
        wrap(i + k * n, n) == wrap(i, n),
{
    lemma_mod_multiples_vanish(k, i, n);
    assert(n * k + i == i + k * n) by (nonlinear_arith);
}

/// Writing a cell changes that cell and no other: the written address reads
/// back the new state, and an address that names another cell reads what it
/// read before.
pub proof fn lemma_with_cell_reads_back(
    b: Seq<Seq<CellState>>,
    row: int,
    col: int,
    state: CellState,
    row2: int,
    col2: int,
)
    requires
        is_board(b),
    ensures
        is_board(with_cell(b, row, col, state)),
        height(with_cell(b, row, col, state)) == height(b),
        width(with_cell(b, row, col, state)) == width(b),
        cell_at(with_cell(b, row, col, state), row, col) == state,
        wrap(row2, height(b)) != wrap(row, height(b)) || wrap(col2, width(b)) != wrap(
            col,
            width(b),
        ) ==> cell_at(with_cell(b, row, col, state), row2, col2) == cell_at(b, row2, col2),
{
    lemma_wrap_in_range(row, height(b));
    lemma_wrap_in_range(col, width(b));
    lemma_wrap_in_range(row2, height(b));
    lemma_wrap_in_range(col2, width(b));
    let r = wrap(row, height(b));
    let after = with_cell(b, row, col, state);
    assert(b[r].len() == b[0].len());
    assert forall|k: int| 0 <= k < after.len() implies (#[trigger] after[k]).len()
        == after[0].len() by {
        assert(b[k].len() == b[0].len());
    }
}

/// Shifting an address and wrapping it gives the same index as wrapping
/// first and shifting after.
pub proof fn lemma_wrap_shift(i: int, d: int, n: int)
    requires
        n > 0,
    ensures
        wrap(i + d, n) == wrap(wrap(i, n) + d, n),
{
    lemma_fundamental_div_mod(i, n);
    lemma_mod_multiples_vanish(i / n, i % n + d, n);
}

/// The neighbours of an index that already lies in `0..n`: one step down
/// from the first index is the last, one step up from the last is the first.
pub proof fn lemma_wrap_adjacent(i: int, n: int)
    requires
        0 <= i < n,
    ensures
        wrap(i, n) == i,
        wrap(i - 1, n) == if i == 0 { n - 1 } else { i - 1 },
        wrap(i + 1, n) == if i + 1 == n { 0 } else { i + 1 },
{
    lemma_small_mod(i as nat, n as nat);
    if i == 0 {
        lemma_fundamental_div_mod_converse(-1, n, -1, n - 1);
    } else {
        lemma_small_mod((i - 1) as nat, n as nat);
    }
    if i + 1 == n {
        lemma_fundamental_div_mod_converse(n, n, 1, 0);
    } else {
        lemma_small_mod((i + 1) as nat, n as nat);
    }
}

/// The neighbour count of an address is that of the cell it names.
pub proof fn lemma_live_neighbors_wrapped(b: Seq<Seq<CellState>>, row: int, col: int)
    requires
        is_board(b),
    ensures
        live_neighbors(b, row, col) == live_neighbors(
            b,
            wrap(row, height(b)),
            wrap(col, width(b)),
        ),
{
    let h = height(b);
    let w = width(b);
    lemma_wrap_shift(row, -1, h);
    lemma_wrap_shift(row, 0, h);
    lemma_wrap_shift(row, 1, h);
    lemma_wrap_shift(col, -1, w);
    lemma_wrap_shift(col, 0, w);
    lemma_wrap_shift(col, 1, w);
}

/// 1 where the cell in row `r`, column `c` of the matrix is alive, else 0.
pub open spec fn live_in(b: Seq<Seq<CellState>>, r: int, c: int) -> int {
    if b[r][c].alive() {
        1
    } else {
        0
    }
}

/// For a cell inside the matrix the eight neighbours are found without any
/// division: only the first and the last row and column wrap.
pub proof fn lemma_live_neighbors_inside(b: Seq<Seq<CellState>>, r: int, c: int)
    requires
        is_board(b),
        0 <= r < height(b),
        0 <= c < width(b),
    ensures
        cell_at(b, r, c) == b[r][c],
        live_neighbors(b, r, c) == ({
            let up = if r == 0 { height(b) - 1 } else { r - 1 };
            let down = if r + 1 == height(b) { 0 } else { r + 1 };
            let left = if c == 0 { width(b) - 1 } else { c - 1 };
            let right = if c + 1 == width(b) { 0 } else { c + 1 };
            live_in(b, up, left) + live_in(b, up, c) + live_in(b, up, right) + live_in(b, r, left)
                + live_in(b, r, right) + live_in(b, down, left) + live_in(b, down, c) + live_in(
                b,
                down,
                right,
            )
        }),
{
    let h = height(b);
    let w = width(b);
    lemma_wrap_adjacent(r, h);
    lemma_wrap_adjacent(c, w);
    let up = if r == 0 { h - 1 } else { r - 1 };
    let down = if r + 1 == h { 0 } else { r + 1 };
    let left = if c == 0 { w - 1 } else { c - 1 };
    let right = if c + 1 == w { 0 } else { c + 1 };
    assert(live_at(b, r - 1, c - 1) == live_in(b, up, left));
    assert(live_at(b, r - 1, c) == live_in(b, up, c));
    assert(live_at(b, r - 1, c + 1) == live_in(b, up, right));
    assert(live_at(b, r, c - 1) == live_in(b, r, left));
    assert(live_at(b, r, c + 1) == live_in(b, r, right));
    assert(live_at(b, r + 1, c - 1) == live_in(b, down, left));
    assert(live_at(b, r + 1, c) == live_in(b, down, c));
    assert(live_at(b, r + 1, c + 1) == live_in(b, down, right));
}

/// The neighbour count is at most eight and never negative.
pub proof fn lemma_live_neighbors_bounded(b: Seq<Seq<CellState>>, row: int, col: int)
    ensures
        0 <= live_neighbors(b, row, col) <= 8,
{
}

/// On a board without live cells no cell has a live neighbour.
pub proof fn lemma_dead_board_has_no_live_neighbors(b: Seq<Seq<CellState>>, row: int, col: int)
    requires
        is_board(b),
        all_dead(b),
    ensures
        live_neighbors(b, row, col) == 0,
{
    assert forall|r: int, c: int| live_at(b, r, c) == 0 by {
        lemma_wrap_in_range(r, height(b));
        lemma_wrap_in_range(c, width(b));
        let wr = wrap(r, height(b));
        let wc = wrap(c, width(b));
        assert(b[wr].len() == b[0].len());
        assert(b[wr][wc] == CellState::Dead);
    }
}

/// The successor of a board is a board of the same shape.
pub proof fn lemma_next_board_shape(b: Seq<Seq<CellState>>)
    requires
        is_board(b),
    ensures
        is_board(next_board(b)),
        height(next_board(b)) == height(b),
        width(next_board(b)) == width(b),
{
}

/// The rule by the number of live neighbours: with exactly three the cell is
/// alive, with exactly two it keeps its state, with fewer or more it is dead.
pub proof fn lemma_rule_by_count(state: CellState, neighbors: int)
    ensures
        neighbors == 3 ==> next_state(state, neighbors) == CellState::Alive,
        neighbors == 2 ==> next_state(state, neighbors) == state,
        neighbors < 2 || neighbors > 3 ==> next_state(state, neighbors) == CellState::Dead,
{
}

/// A board on which the rule changes no cell is its own successor.
pub proof fn lemma_fixed_board(b: Seq<Seq<CellState>>)
    requires
        is_board(b),
        forall|r: int, c: int|
            0 <= r < height(b) && 0 <= c < width(b) ==> #[trigger] next_cell(b, r, c) == b[r][c],
    ensures
        next_board(b) == b,
{
    let next = next_board(b);
    assert forall|r: int| 0 <= r < b.len() implies #[trigger] next[r] == b[r] by {
        assert(b[r].len() == b[0].len());
        assert forall|c: int| 0 <= c < b[0].len() implies #[trigger] next[r][c] == b[r][c] by {
            assert(next_cell(b, r, c) == b[r][c]);
        }
        assert(next[r] =~= b[r]);
    }
    assert(next =~= b);
}

/// A board that is its own successor is a still life: it stays as it is
/// through any number of generations.
pub proof fn lemma_still_life(b: Seq<Seq<CellState>>, n: nat)
    requires
        next_board(b) == b,
    ensures
        generations(b, n) == b,
    decreases n,
{
    if n > 0 {
        lemma_still_life(b, (n - 1) as nat);
    }
}

/// Stepping depends on the board's contents and on nothing else: equal
/// boards have equal successors, after any number of generations.
pub proof fn lemma_step_deterministic(a: Seq<Seq<CellState>>, b: Seq<Seq<CellState>>, n: nat)
    requires
        a == b,
    ensures
        next_board(a) == next_board(b),
        generations(a, n) == generations(b, n),
{
}

} // verus!
