//! The window's geometry, from which the grid's dimensions are derived.

use crate::board::{height, uniform_board, width};
use crate::cell::CellState;
use crate::grid::Grid;
use vstd::prelude::*;

verus! {

/// Width of the usual window, in pixels.
pub const WINDOW_WIDTH: i32 = 1020;

/// Height of the usual window, in pixels.
pub const WINDOW_HEIGHT: i32 = 1020;

/// Side of one cell of the usual window, in pixels.
pub const CELL_SIZE: i32 = 6;

/// A window and the size of its cells, as plain mathematical values.
pub struct Screen {
    pub width: int,
    pub height: int,
    pub cell_size: int,
}

/// How many whole cells fit below one another. Pixels left over are margin.
pub open spec fn screen_rows(s: Screen) -> int {
    s.height / s.cell_size
}

/// How many whole cells fit side by side. Pixels left over are margin.
pub open spec fn screen_cols(s: Screen) -> int {
    s.width / s.cell_size
}

/// A screen with room for at least one cell.
pub open spec fn screen_ok(s: Screen) -> bool {
    &&& 1 <= s.cell_size
    &&& s.cell_size <= s.height <= i32::MAX
    &&& s.cell_size <= s.width <= i32::MAX
}

/// A valid screen has at least one row and one column of cells, and its
/// cells lie inside the window.
pub proof fn lemma_screen_has_cells(s: Screen)
    requires
        screen_ok(s),
    ensures
        1 <= screen_rows(s),
        1 <= screen_cols(s),
        screen_rows(s) * s.cell_size <= s.height,
        screen_cols(s) * s.cell_size <= s.width,
{
    lemma_whole_cells(s.height, s.cell_size);
    lemma_whole_cells(s.width, s.cell_size);
}

/// The cells that fit into a length cover no more than that length, and at
/// least one fits where the length is no shorter than a cell.
pub proof fn lemma_whole_cells(length: int, cell: int)
    requires
        1 <= cell <= length,
    ensures
        1 <= length / cell,
        (length / cell) * cell <= length,
{
    vstd::arithmetic::div_mod::lemma_fundamental_div_mod(length, cell);
    vstd::arithmetic::div_mod::lemma_mod_bound(length, cell);
    let q = length / cell;
    assert(q >= 1) by (nonlinear_arith)
        requires
            length == cell * q + length % cell,
            0 <= length % cell < cell,
            1 <= cell <= length,
    ;
    assert(q * cell == cell * q) by (nonlinear_arith);
}

/// Why a window cannot hold a grid.
#[derive(Clone, Copy, Debug, PartialEq, Eq, Structural)]
pub enum ConfigError {
    /// The cell size is zero or negative.
    CellSize,
    /// The window is lower than one cell.
    NoRows,
    /// The window is narrower than one cell.
    NoColumns,
}

/// What `Layout::new` answers for the given numbers.
pub open spec fn checked_screen(width: int, height: int, cell_size: int) -> Result<
    Screen,
    ConfigError,
> {
    if cell_size <= 0 {
        Err(ConfigError::CellSize)
    } else if height < cell_size {
        Err(ConfigError::NoRows)
    } else if width < cell_size {
        Err(ConfigError::NoColumns)
    } else {
        Ok(Screen { width, height, cell_size })
    }
}

/// A window size and a cell size that give a grid with at least one row and
/// one column.
#[derive(Clone, Copy, Debug, PartialEq, Eq)]
pub struct Layout {
    width: i32,
    height: i32,
    cell_size: i32,
}

impl View for Layout {
    type V = Screen;

    closed spec fn view(&self) -> Screen {
        Screen {
            width: self.width as int,
            height: self.height as int,
            cell_size: self.cell_size as int,
        }
    }
}

impl Default for Layout {
    /// The usual window.
    fn default() -> (layout: Layout)
        ensures
            layout.well_formed(),
            layout@ == (Screen {
                width: WINDOW_WIDTH as int,
                height: WINDOW_HEIGHT as int,
                cell_size: CELL_SIZE as int,
            }),
    {
        Layout { width: WINDOW_WIDTH, height: WINDOW_HEIGHT, cell_size: CELL_SIZE }
    }
}

impl Layout {
    /// The representation invariant, stated over the view.
    pub open spec fn well_formed(&self) -> bool {
        screen_ok(self@)
    }

    /// Whether `grid` has exactly the rows and columns of this layout.
    pub open spec fn fits(&self, grid: &Grid) -> bool {
        &&& height(grid@) == screen_rows(self@)
        &&& width(grid@) == screen_cols(self@)
    }

    /// Checks a window size and a cell size. A layout whose grid would have
    /// no rows or no columns is refused.
    pub fn new(width: i32, height: i32, cell_size: i32) -> (made: Result<Layout, ConfigError>)
        ensures
            made matches Ok(layout) ==> layout.well_formed() && checked_screen(
                width as int,
                height as int,
                cell_size as int,
            ) == Ok::<Screen, ConfigError>(layout@),
            made matches Err(e) ==> checked_screen(width as int, height as int, cell_size as int)
                == Err::<Screen, ConfigError>(e),
    {
        if cell_size <= 0 {
            Err(ConfigError::CellSize)
        } else if height < cell_size {
            Err(ConfigError::NoRows)
        } else if width < cell_size {
            Err(ConfigError::NoColumns)
        } else {
            Ok(Layout { width, height, cell_size })
        }
    }

    /// Width of the window, in pixels.
    pub fn width(&self) -> (w: i32)
        ensures
            w == self@.width,
    {
        self.width
    }

    /// Height of the window, in pixels.
    pub fn height(&self) -> (h: i32)
        ensures
            h == self@.height,
    {
        self.height
    }

    /// Side of one cell, in pixels.
    pub fn cell_size(&self) -> (size: i32)
        ensures
            size == self@.cell_size,
    {
        self.cell_size
    }

    /// Number of rows of the grid.
    pub fn rows(&self) -> (n: usize)
        requires
            self.well_formed(),
        ensures
            n == screen_rows(self@),
            n >= 1,
    {
        proof {
            lemma_screen_has_cells(self@);
        }
        (self.height / self.cell_size) as usize
    }

    /// Number of columns of the grid.
    pub fn cols(&self) -> (n: usize)
        requires
            self.well_formed(),
        ensures
            n == screen_cols(self@),
            n >= 1,
    {
        proof {
            lemma_screen_has_cells(self@);
        }
        (self.width / self.cell_size) as usize
    }

    /// Tells whether `grid` has exactly the rows and columns of this layout.
    pub fn holds(&self, grid: &Grid) -> (fitting: bool)
        requires
            self.well_formed(),
            grid.well_formed(),
        ensures
            fitting == self.fits(grid),
    {
        grid.rows() == self.rows() && grid.cols() == self.cols()
    }

    /// Makes the grid of dead cells for this layout. There is none where the
    /// number of cells exceeds the machine's range.
    pub fn make_grid(&self) -> (made: Option<Grid>)
        requires
            self.well_formed(),
        ensures
            made.is_some() <==> screen_rows(self@) * screen_cols(self@) <= usize::MAX,
            made matches Some(grid) ==> grid.well_formed() && self.fits(&grid) && grid@
                == uniform_board(
                screen_rows(self@) as nat,
                screen_cols(self@) as nat,
                CellState::Dead,
            ),
    {
        Grid::new(self.rows(), self.cols())
    }
}

} // verus!
