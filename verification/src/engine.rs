//! One generation at a time: neighbour counting and the double-buffered step.

use crate::board::{
    all_dead, height, lemma_dead_board_has_no_live_neighbors, lemma_live_neighbors_inside,
    lemma_live_neighbors_wrapped, live_in, live_neighbors, next_board, next_cell, next_state,
    width,
};
use crate::cell::CellState;
use crate::grid::{wrap_index, Grid};
use vstd::prelude::*;

verus! {

/// Applies the B3/S23 rule to one cell.
pub fn apply_rule(state: CellState, neighbors: u8) -> (next: CellState)
    ensures
        next == next_state(state, neighbors as int),
{
    match state {
        CellState::Alive => {
            if neighbors == 2 || neighbors == 3 {
                CellState::Alive
            } else {
                CellState::Dead
            }
        },
        CellState::Dead => {
            if neighbors == 3 {
                CellState::Alive
            } else {
                CellState::Dead
            }
        },
    }
}

/// 1 where the cell in row `r`, column `c` is alive, else 0.
fn live(grid: &Grid, r: usize, c: usize) -> (n: u8)
    requires
        grid.well_formed(),
        r < height(grid@),
        c < width(grid@),
    ensures
        n == live_in(grid@, r as int, c as int),
{
    if grid.peek(r, c).is_alive() {
        1
    } else {
        0
    }
}

/// Counts the live neighbours of a cell given by its place in the matrix.
pub(crate) fn count_around(grid: &Grid, r: usize, c: usize) -> (n: u8)
    requires
        grid.well_formed(),
        r < height(grid@),
        c < width(grid@),
    ensures
        n == live_neighbors(grid@, r as int, c as int),
        n <= 8,
{
    let rows = grid.rows();
    let cols = grid.cols();
    let up: usize = if r == 0 { rows - 1 } else { r - 1 };
    let down: usize = if r + 1 == rows { 0 } else { r + 1 };
    let left: usize = if c == 0 { cols - 1 } else { c - 1 };
    let right: usize = if c + 1 == cols { 0 } else { c + 1 };
    proof {
        grid.lemma_view_is_board();
        lemma_live_neighbors_inside(grid@, r as int, c as int);
    }
    live(grid, up, left) + live(grid, up, c) + live(grid, up, right) + live(grid, r, left) + live(
        grid,
        r,
        right,
    ) + live(grid, down, left) + live(grid, down, c) + live(grid, down, right)
}

/// Counts the live cells among the eight neighbours of `(row, col)`, each
/// found by toroidal addressing.
pub fn count_live_neighbors(grid: &Grid, row: i64, col: i64) -> (n: u8)
    requires
        grid.well_formed(),
    ensures
        n == live_neighbors(grid@, row as int, col as int),
        n <= 8,
        all_dead(grid@) ==> n == 0,
{
    let r = wrap_index(row, grid.rows());
    let c = wrap_index(col, grid.cols());
    proof {
        grid.lemma_view_is_board();
        lemma_live_neighbors_wrapped(grid@, row as int, col as int);
        if all_dead(grid@) {
            lemma_dead_board_has_no_live_neighbors(grid@, row as int, col as int);
        }
    }
    count_around(grid, r, c)
}

/// Computes generations. It owns the scratch buffer that holds the next
/// generation while the current one is still being read.
#[derive(Clone, Debug)]
pub struct StepEngine {
    scratch: Grid,
}

impl StepEngine {
    /// The scratch buffer is a grid in its own right.
    pub closed spec fn well_formed(&self) -> bool {
        self.scratch.well_formed()
    }

    /// Makes an engine whose scratch buffer has the dimensions of `grid`.
    pub fn new(grid: &Grid) -> (engine: StepEngine)
        requires
            grid.well_formed(),
        ensures
            engine.well_formed(),
    {
        StepEngine { scratch: grid.blank_like() }
    }

    /// Advances `grid` by exactly one generation.
    ///
    /// Every next state is computed from the grid as it was before the call
    /// and written to the scratch buffer; only then is the scratch buffer
    /// copied over the grid.
    pub fn step(&mut self, grid: &mut Grid)
        requires
            old(self).well_formed(),
            old(grid).well_formed(),
        ensures
            final(self).well_formed(),
            final(grid).well_formed(),
            final(grid)@ == next_board(old(grid)@),
    {
        let rows = grid.rows();
        let cols = grid.cols();
        if self.scratch.rows() != rows || self.scratch.cols() != cols {
            self.scratch = grid.blank_like();
        }
        let mut r: usize = 0;
        while r < rows
            invariant
                r <= rows,
                *grid == *old(grid),
                grid.well_formed(),
                self.scratch.well_formed(),
                rows == height(grid@) == height(self.scratch@),
                cols == width(grid@) == width(self.scratch@),
                forall|r2: int, c2: int|
                    0 <= r2 < r && 0 <= c2 < cols ==> (#[trigger] self.scratch@[r2][c2]) == next_cell(
                        grid@,
                        r2,
                        c2,
                    ),
            decreases rows - r,
        {
            let mut c: usize = 0;
            while c < cols
                invariant
                    r < rows,
                    c <= cols,
                    *grid == *old(grid),
                    grid.well_formed(),
                    self.scratch.well_formed(),
                    rows == height(grid@) == height(self.scratch@),
                    cols == width(grid@) == width(self.scratch@),
                    forall|r2: int, c2: int|
                        0 <= r2 < r && 0 <= c2 < cols ==> (#[trigger] self.scratch@[r2][c2])
                            == next_cell(grid@, r2, c2),
                    forall|c2: int|
                        0 <= c2 < c ==> (#[trigger] self.scratch@[r as int][c2]) == next_cell(
                            grid@,
                            r as int,
                            c2,
                        ),
                decreases cols - c,
            {
                let neighbors = count_around(grid, r, c);
                let state = grid.peek(r, c);
                let ghost before = self.scratch@;
                proof {
                    self.scratch.lemma_view_is_board();
                }
                self.scratch.poke(r, c, apply_rule(state, neighbors));
                proof {
                    grid.lemma_view_is_board();
                    lemma_live_neighbors_inside(grid@, r as int, c as int);
                    let after = self.scratch@;
                    assert(after[r as int][c as int] == next_cell(grid@, r as int, c as int));
                    assert forall|r2: int, c2: int| 0 <= r2 < r && 0 <= c2 < cols implies (
                    #[trigger] after[r2][c2]) == next_cell(grid@, r2, c2) by {
                        assert(after[r2][c2] == before[r2][c2]);
                    }
                    assert forall|c2: int| 0 <= c2 < c + 1 implies (#[trigger] after[r as int][c2])
                        == next_cell(grid@, r as int, c2) by {
                        if c2 < c {
                            assert(after[r as int][c2] == before[r as int][c2]);
                        }
                    }
                }
                c += 1;
            }
            r += 1;
        }
        proof {
            grid.lemma_view_is_board();
            self.scratch.lemma_view_is_board();
            assert(self.scratch@ =~~= next_board(grid@));
        }
        grid.copy_from(&self.scratch);
    }
}

/// Advances `grid` by one generation with a scratch buffer made for the call.
pub fn step(grid: &mut Grid)
    requires
        old(grid).well_formed(),
    ensures
        final(grid).well_formed(),
        final(grid)@ == next_board(old(grid)@),
{
    let mut engine = StepEngine::new(grid);
    engine.step(grid);
}

} // verus!
