//! The cell matrix: fixed dimensions, toroidal addressing.

use crate::board::{
    cell_at, drawn_board, height, is_board, state_from_draw, uniform_board, width, with_cell, wrap,
    ALIVE_DRAW,
};
use crate::cell::CellState;
use vstd::arithmetic::div_mod::lemma_fundamental_div_mod_converse;
use vstd::prelude::*;

verus! {

/// A `rows x cols` matrix of cells, stored row by row.
///
/// The dimensions are fixed when the grid is made and never change.
#[derive(Clone, Debug, PartialEq, Eq)]
pub struct Grid {
    rows: usize,
    cols: usize,
    cells: Vec<CellState>,
}

impl View for Grid {
    type V = Seq<Seq<CellState>>;

    closed spec fn view(&self) -> Seq<Seq<CellState>> {
        Seq::new(
            self.rows as nat,
            |r: int| Seq::new(self.cols as nat, |c: int| self.cells@[r * self.cols + c]),
        )
    }
}

/// A cell inside a `rows x cols` matrix has a place in the row-major store.
proof fn lemma_flat_index_in_range(r: int, c: int, rows: int, cols: int)
    requires
        0 <= r < rows,
        0 <= c < cols,
    ensures
        0 <= r * cols + c < rows * cols,
{
    assert(0 <= r * cols) by (nonlinear_arith)
        requires
            0 <= r,
            0 <= cols,
    ;
    assert((r + 1) * cols <= rows * cols) by (nonlinear_arith)
        requires
            r + 1 <= rows,
            0 <= cols,
    ;
    assert((r + 1) * cols == r * cols + cols) by (nonlinear_arith);
}

/// Two cells of a matrix share a place in the store only if they are the same cell.
proof fn lemma_flat_index_injective(r1: int, c1: int, r2: int, c2: int, cols: int)
    requires
        0 <= c1 < cols,
        0 <= c2 < cols,
        r1 * cols + c1 == r2 * cols + c2,
    ensures
        r1 == r2,
        c1 == c2,
{
    lemma_fundamental_div_mod_converse(r1 * cols + c1, cols, r1, c1);
    lemma_fundamental_div_mod_converse(r2 * cols + c2, cols, r2, c2);
}

/// Reduces a signed index to `0..n` by Euclidean remainder.
pub fn wrap_index(i: i64, n: usize) -> (w: usize)
    requires
        n > 0,
    ensures
        w == wrap(i as int, n as int),
        w < n,
{
    let modulus: u64 = n as u64;
    if i >= 0 {
        let r: u64 = (i as u64) % modulus;
        r as usize
    } else {
        let below: u64 = (-(i + 1)) as u64;
        let r: u64 = below % modulus;
        let q: Ghost<int> = Ghost(below as int / n as int);
        proof {
            let d = n as int;
            let x = below as int;
            assert(x == d * (x / d) + x % d) by {
                vstd::arithmetic::div_mod::lemma_fundamental_div_mod(x, d);
            }
            assert(i as int == (-(q@ + 1)) * d + (d - 1 - r)) by (nonlinear_arith)
                requires
                    x == d * q@ + r,
                    i as int == -(x + 1),
            ;
            lemma_fundamental_div_mod_converse(i as int, d, -(q@ + 1), d - 1 - r);
        }
        n - 1 - (r as usize)
    }
}

/// Decides a cell's state from one random draw.
pub fn cell_from_draw(draw: i32) -> (state: CellState)
    ensures
        state == state_from_draw(draw),
{
    if draw == ALIVE_DRAW {
        CellState::Alive
    } else {
        CellState::Dead
    }
}

impl Grid {
    /// The representation invariant: both dimensions are positive and the
    /// store holds exactly one cell per position.
    pub closed spec fn well_formed(&self) -> bool {
        &&& self.rows > 0
        &&& self.cols > 0
        &&& self.rows * self.cols <= usize::MAX
        &&& self.cells@.len() == self.rows * self.cols
    }

    /// A well-formed grid is a board, so every toroidal address names a cell.
    pub proof fn lemma_view_is_board(&self)
        requires
            self.well_formed(),
        ensures
            is_board(self@),
    {
    }

    /// The number of cells of a well-formed grid is within the machine's range.
    pub proof fn lemma_cell_count_fits(&self)
        requires
            self.well_formed(),
        ensures
            height(self@) * width(self@) <= usize::MAX,
    {
    }

    /// Makes a grid of dead cells with dimensions already known to be valid.
    fn dead(rows: usize, cols: usize) -> (g: Grid)
        requires
            rows > 0,
            cols > 0,
            rows * cols <= usize::MAX,
        ensures
            g.well_formed(),
            g@ == uniform_board(rows as nat, cols as nat, CellState::Dead),
    {
        let count: usize = rows * cols;
        let mut cells: Vec<CellState> = Vec::new();
        let mut i: usize = 0;
        while i < count
            invariant
                i <= count,
                cells@.len() == i,
                forall|k: int| 0 <= k < i ==> cells@[k] == CellState::Dead,
            decreases count - i,
        {
            cells.push(CellState::Dead);
            i += 1;
        }
        let g = Grid { rows, cols, cells };
        proof {
            assert forall|r: int, c: int| 0 <= r < rows && 0 <= c < cols implies g@[r][c]
                == CellState::Dead by {
                lemma_flat_index_in_range(r, c, rows as int, cols as int);
            }
            assert(g@ =~~= uniform_board(rows as nat, cols as nat, CellState::Dead));
        }
        g
    }

    /// Makes a grid of dead cells. There is no grid without rows or without
    /// columns, nor one whose cell count exceeds the machine's range.
    pub fn new(rows: usize, cols: usize) -> (made: Option<Grid>)
        ensures
            made.is_some() <==> rows > 0 && cols > 0 && rows * cols <= usize::MAX,
            made matches Some(g) ==> g.well_formed() && g@ == uniform_board(
                rows as nat,
                cols as nat,
                CellState::Dead,
            ),
    {
        if rows == 0 || cols == 0 {
            return None;
        }
        match rows.checked_mul(cols) {
            None => None,
            Some(_) => Some(Grid::dead(rows, cols)),
        }
    }

    /// Makes a grid of dead cells with the dimensions of this one.
    pub fn blank_like(&self) -> (g: Grid)
        requires
            self.well_formed(),
        ensures
            g.well_formed(),
            g@ == uniform_board(height(self@) as nat, width(self@) as nat, CellState::Dead),
    {
        Grid::dead(self.rows, self.cols)
    }

    /// Overwrites every cell with the cell at the same position of `source`.
    pub(crate) fn copy_from(&mut self, source: &Grid)
        requires
            old(self).well_formed(),
            source.well_formed(),
            height(old(self)@) == height(source@),
            width(old(self)@) == width(source@),
        ensures
            final(self).well_formed(),
            final(self)@ == source@,
    {
        let count: usize = self.cells.len();
        let mut i: usize = 0;
        while i < count
            invariant
                i <= count,
                self.rows == source.rows,
                self.cols == source.cols,
                self.cells@.len() == count,
                source.cells@.len() == count,
                self.well_formed(),
                forall|k: int| 0 <= k < i ==> self.cells@[k] == source.cells@[k],
            decreases count - i,
        {
            self.cells.set(i, source.cells[i]);
            i += 1;
        }
        proof {
            assert forall|r: int, c: int| 0 <= r < self.rows && 0 <= c < self.cols implies self@[r][c]
                == source@[r][c] by {
                lemma_flat_index_in_range(r, c, self.rows as int, self.cols as int);
            }
            assert(self@ =~~= source@);
        }
    }

    /// Number of rows.
    pub fn rows(&self) -> (n: usize)
        requires
            self.well_formed(),
        ensures
            n == height(self@),
            n > 0,
    {
        self.rows
    }

    /// Number of columns.
    pub fn cols(&self) -> (n: usize)
        requires
            self.well_formed(),
        ensures
            n == width(self@),
            n > 0,
    {
        self.cols
    }

    /// Reads the cell in row `r`, column `c` of the matrix.
    pub(crate) fn peek(&self, r: usize, c: usize) -> (state: CellState)
        requires
            self.well_formed(),
            r < height(self@),
            c < width(self@),
        ensures
            state == self@[r as int][c as int],
    {
        proof {
            assert(self@[0].len() == self.cols);
            lemma_flat_index_in_range(r as int, c as int, self.rows as int, self.cols as int);
            assert(0 <= r * self.cols <= r * self.cols + c) by (nonlinear_arith);
        }
        self.cells[r * self.cols + c]
    }

    /// Writes the cell in row `r`, column `c` of the matrix.
    pub(crate) fn poke(&mut self, r: usize, c: usize, state: CellState)
        requires
            old(self).well_formed(),
            r < height(old(self)@),
            c < width(old(self)@),
        ensures
            final(self).well_formed(),
            final(self)@ == old(self)@.update(r as int, old(self)@[r as int].update(c as int, state)),
    {
        proof {
            assert(self@[0].len() == self.cols);
            lemma_flat_index_in_range(r as int, c as int, self.rows as int, self.cols as int);
            assert(0 <= r * self.cols <= r * self.cols + c) by (nonlinear_arith);
        }
        let at: usize = r * self.cols + c;
        self.cells.set(at, state);
        proof {
            let before = old(self)@;
            let after = self@;
            let cols = self.cols as int;
            assert forall|r2: int, c2: int| 0 <= r2 < self.rows && 0 <= c2 < cols implies after[r2][c2]
                == before.update(r as int, before[r as int].update(c as int, state))[r2][c2] by {
                lemma_flat_index_in_range(r2, c2, self.rows as int, cols);
                if r2 * cols + c2 == at {
                    lemma_flat_index_injective(r2, c2, r as int, c as int, cols);
                }
            }
            assert(after =~~= before.update(r as int, before[r as int].update(c as int, state)));
        }
    }

    /// Reads the cell at a toroidal address: any integers are reduced by
    /// Euclidean remainder against the grid's dimensions.
    pub fn get(&self, row: i64, col: i64) -> (state: CellState)
        requires
            self.well_formed(),
        ensures
            state == cell_at(self@, row as int, col as int),
    {
        let r = wrap_index(row, self.rows);
        let c = wrap_index(col, self.cols);
        self.peek(r, c)
    }

    /// Writes the cell at a toroidal address and leaves every other cell as it was.
    pub fn set(&mut self, row: i64, col: i64, state: CellState)
        requires
            old(self).well_formed(),
        ensures
            final(self).well_formed(),
            final(self)@ == with_cell(old(self)@, row as int, col as int, state),
    {
        let r = wrap_index(row, self.rows);
        let c = wrap_index(col, self.cols);
        self.poke(r, c, state);
    }

    /// Sets every cell to `state`.
    pub fn fill(&mut self, state: CellState)
        requires
            old(self).well_formed(),
        ensures
            final(self).well_formed(),
            final(self)@ == uniform_board(
                height(old(self)@) as nat,
                width(old(self)@) as nat,
                state,
            ),
    {
        let count: usize = self.cells.len();
        let mut i: usize = 0;
        while i < count
            invariant
                i <= count,
                self.rows == old(self).rows,
                self.cols == old(self).cols,
                self.cells@.len() == count,
                self.well_formed(),
                forall|k: int| 0 <= k < i ==> self.cells@[k] == state,
            decreases count - i,
        {
            self.cells.set(i, state);
            i += 1;
        }
        proof {
            assert forall|r: int, c: int| 0 <= r < self.rows && 0 <= c < self.cols implies self@[r][c]
                == state by {
                lemma_flat_index_in_range(r, c, self.rows as int, self.cols as int);
            }
            assert(self@ =~~= uniform_board(self.rows as nat, self.cols as nat, state));
        }
    }

    /// Sets every cell from a sequence of random draws, one per cell, row
    /// by row. Cells beyond the end of `draws` are set dead.
    pub fn randomize(&mut self, draws: &Vec<i32>)
        requires
            old(self).well_formed(),
        ensures
            final(self).well_formed(),
            final(self)@ == drawn_board(
                height(old(self)@) as nat,
                width(old(self)@) as nat,
                draws@,
            ),
    {
        let count: usize = self.cells.len();
        let given: usize = draws.len();
        let mut i: usize = 0;
        while i < count
            invariant
                i <= count,
                given == draws@.len(),
                self.rows == old(self).rows,
                self.cols == old(self).cols,
                self.cells@.len() == count,
                self.well_formed(),
                forall|k: int|
                    0 <= k < i ==> self.cells@[k] == if k < given {
                        state_from_draw(draws@[k])
                    } else {
                        CellState::Dead
                    },
            decreases count - i,
        {
            let state = if i < given {
                cell_from_draw(draws[i])
            } else {
                CellState::Dead
            };
            self.cells.set(i, state);
            i += 1;
        }
        proof {
            let target = drawn_board(self.rows as nat, self.cols as nat, draws@);
            assert forall|r: int, c: int| 0 <= r < self.rows && 0 <= c < self.cols implies self@[r][c]
                == target[r][c] by {
                lemma_flat_index_in_range(r, c, self.rows as int, self.cols as int);
            }
            assert(self@ =~~= target);
        }
    }
}

} // verus!
