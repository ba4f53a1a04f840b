//! What a frame shows: one coloured rectangle per cell, and a status text.

use crate::board::{height, width};
use crate::cell::CellState;
use crate::control::{Control, ControlState};
use crate::grid::Grid;
use crate::layout::{lemma_screen_has_cells, screen_cols, screen_ok, screen_rows, Layout, Screen};
use vstd::arithmetic::div_mod::lemma_fundamental_div_mod_converse;
use vstd::prelude::*;
use vstd::string::StringExecFns;

verus! {

/// A colour with an alpha channel.
#[derive(Clone, Copy, Debug, PartialEq, Eq, Structural)]
pub struct Rgba {
    pub r: u8,
    pub g: u8,
    pub b: u8,
    pub a: u8,
}

/// The colours of a frame: one for the background and one per cell state.
#[derive(Clone, Copy, Debug, PartialEq, Eq, Structural)]
pub struct Palette {
    pub background: Rgba,
    pub dead: Rgba,
    pub alive: Rgba,
}

/// The usual colours: grey background, dark grey dead cells, green live cells.
pub open spec fn usual_palette() -> Palette {
    Palette {
        background: Rgba { r: 29, g: 29, b: 29, a: 255 },
        dead: Rgba { r: 55, g: 55, b: 55, a: 255 },
        alive: Rgba { r: 0, g: 228, b: 48, a: 255 },
    }
}

impl Default for Palette {
    /// The usual colours.
    fn default() -> (palette: Palette)
        ensures
            palette == usual_palette(),
    {
        Palette {
            background: Rgba { r: 29, g: 29, b: 29, a: 255 },
            dead: Rgba { r: 55, g: 55, b: 55, a: 255 },
            alive: Rgba { r: 0, g: 228, b: 48, a: 255 },
        }
    }
}

impl Palette {
    /// The colour in which a cell of the given state is drawn.
    pub open spec fn color_of(self, state: CellState) -> Rgba {
        match state {
            CellState::Alive => self.alive,
            CellState::Dead => self.dead,
        }
    }

    /// The colour in which a cell of the given state is drawn.
    pub fn cell_color(&self, state: CellState) -> (color: Rgba)
        ensures
            color == self.color_of(state),
    {
        match state {
            CellState::Alive => self.alive,
            CellState::Dead => self.dead,
        }
    }
}

/// A filled rectangle, in pixels from the window's upper left corner.
#[derive(Clone, Copy, Debug, PartialEq, Eq, Structural)]
pub struct Tile {
    pub x: i32,
    pub y: i32,
    pub width: i32,
    pub height: i32,
    pub color: Rgba,
}

/// The rectangle of the cell in row `r`, column `c`: it starts at the cell's
/// corner and is one pixel shorter than the cell on both sides, which leaves
/// a gutter between neighbours.
pub open spec fn tile_of(
    screen: Screen,
    palette: Palette,
    board: Seq<Seq<CellState>>,
    r: int,
    c: int,
) -> Tile {
    Tile {
        x: (c * screen.cell_size) as i32,
        y: (r * screen.cell_size) as i32,
        width: (screen.cell_size - 1) as i32,
        height: (screen.cell_size - 1) as i32,
        color: palette.color_of(board[r][c]),
    }
}

/// The rectangles of all cells, row by row.
pub open spec fn tiles_of(screen: Screen, palette: Palette, board: Seq<Seq<CellState>>) -> Seq<
    Tile,
> {
    Seq::new(
        (height(board) * width(board)) as nat,
        |k: int| tile_of(screen, palette, board, k / width(board), k % width(board)),
    )
}

/// A cell's corner lies inside the window, so its coordinates are pixels
/// that the window has.
pub proof fn lemma_tile_inside(screen: Screen, r: int, c: int)
    requires
        screen_ok(screen),
        0 <= r < screen_rows(screen),
        0 <= c < screen_cols(screen),
    ensures
        0 <= r * screen.cell_size <= screen.height - screen.cell_size,
        0 <= c * screen.cell_size <= screen.width - screen.cell_size,
{
    lemma_screen_has_cells(screen);
    let s = screen.cell_size;
    assert(0 <= r * s && (r + 1) * s <= screen_rows(screen) * s && (r + 1) * s == r * s + s)
        by (nonlinear_arith)
        requires
            0 <= r < screen_rows(screen),
            1 <= s,
    ;
    assert(0 <= c * s && (c + 1) * s <= screen_cols(screen) * s && (c + 1) * s == c * s + s)
        by (nonlinear_arith)
        requires
            0 <= c < screen_cols(screen),
            1 <= s,
    ;
}

/// Lists the rectangle to draw for every cell of the grid, row by row.
pub fn tiles(layout: &Layout, palette: &Palette, grid: &Grid) -> (list: Vec<Tile>)
    requires
        layout.well_formed(),
        grid.well_formed(),
        layout.fits(grid),
    ensures
        list@ == tiles_of(layout@, *palette, grid@),
{
    let rows = grid.rows();
    let cols = grid.cols();
    let size = layout.cell_size();
    let mut list: Vec<Tile> = Vec::new();
    let mut r: usize = 0;
    while r < rows
        invariant
            r <= rows,
            grid.well_formed(),
            layout.well_formed(),
            layout.fits(grid),
            rows == height(grid@),
            cols == width(grid@),
            size == layout@.cell_size,
            list@.len() == r * cols,
            forall|k: int|
                0 <= k < list@.len() ==> (#[trigger] list@[k]) == tile_of(
                    layout@,
                    *palette,
                    grid@,
                    k / (cols as int),
                    k % (cols as int),
                ),
        decreases rows - r,
    {
        let mut c: usize = 0;
        while c < cols
            invariant
                r < rows,
                c <= cols,
                grid.well_formed(),
                layout.well_formed(),
                layout.fits(grid),
                rows == height(grid@),
                cols == width(grid@),
                size == layout@.cell_size,
                list@.len() == r * cols + c,
                forall|k: int|
                    0 <= k < list@.len() ==> (#[trigger] list@[k]) == tile_of(
                        layout@,
                        *palette,
                        grid@,
                        k / (cols as int),
                        k % (cols as int),
                    ),
            decreases cols - c,
        {
            proof {
                lemma_tile_inside(layout@, r as int, c as int);
                lemma_fundamental_div_mod_converse(r * cols + c, cols as int, r as int, c as int);
            }
            let tile = Tile {
                x: (c as i32) * size,
                y: (r as i32) * size,
                width: size - 1,
                height: size - 1,
                color: palette.cell_color(grid.peek(r, c)),
            };
            list.push(tile);
            c += 1;
        }
        proof {
            assert((r + 1) * cols == r * cols + cols) by (nonlinear_arith);
        }
        r += 1;
    }
    proof {
        assert(list@ =~= tiles_of(layout@, *palette, grid@));
    }
    list
}

/// The character that stands for a decimal digit.
pub open spec fn digit_char(d: int) -> char {
    if d == 0 {
        '0'
    } else if d == 1 {
        '1'
    } else if d == 2 {
        '2'
    } else if d == 3 {
        '3'
    } else if d == 4 {
        '4'
    } else if d == 5 {
        '5'
    } else if d == 6 {
        '6'
    } else if d == 7 {
        '7'
    } else if d == 8 {
        '8'
    } else {
        '9'
    }
}

/// A number in decimal notation, without leading zeros.
pub open spec fn decimal(n: nat) -> Seq<char>
    decreases n,
{
    if n < 10 {
        seq![digit_char(n as int)]
    } else {
        decimal(n / 10).push(digit_char((n % 10) as int))
    }
}

/// The status text: whether the simulation runs, and at what speed.
pub open spec fn status_text(m: Control) -> Seq<char> {
    if m.running {
        "Running at "@ + decimal(m.speed as nat)
    } else {
        "Paused"@
    }
}

/// The window's title: the program's name before the status text.
pub open spec fn title_text(m: Control) -> Seq<char> {
    "Game of Life is "@ + status_text(m)
}

/// The text of one decimal digit.
fn digit_text(d: u32) -> (text: &'static str)
    requires
        d < 10,
    ensures
        text@ == seq![digit_char(d as int)],
{
    proof {
        reveal_strlit("0");
        reveal_strlit("1");
        reveal_strlit("2");
        reveal_strlit("3");
        reveal_strlit("4");
        reveal_strlit("5");
        reveal_strlit("6");
        reveal_strlit("7");
        reveal_strlit("8");
        reveal_strlit("9");
    }
    let text = if d == 0 {
        "0"
    } else if d == 1 {
        "1"
    } else if d == 2 {
        "2"
    } else if d == 3 {
        "3"
    } else if d == 4 {
        "4"
    } else if d == 5 {
        "5"
    } else if d == 6 {
        "6"
    } else if d == 7 {
        "7"
    } else if d == 8 {
        "8"
    } else {
        "9"
    };
    assert(text@ =~= seq![digit_char(d as int)]);
    text
}

/// Appends a number in decimal notation to a text.
pub fn append_decimal(text: &mut String, n: u32)
    ensures
        final(text)@ == old(text)@ + decimal(n as nat),
    decreases n,
{
    if n >= 10 {
        append_decimal(text, n / 10);
    }
    text.append(digit_text(n % 10));
    proof {
        let before = old(text)@;
        if n >= 10 {
            assert(text@ =~= before + decimal((n / 10) as nat).push(digit_char((n % 10) as int)));
        } else {
            assert(text@ =~= before + seq![digit_char(n as int)]);
        }
    }
}

/// The status text for a control state: `Paused`, or `Running at` and the speed.
pub fn status_label(control: &ControlState) -> (label: String)
    ensures
        label@ == status_text(control@),
{
    if control.is_running() {
        let mut label = String::from_str("Running at ");
        append_decimal(&mut label, control.speed());
        label
    } else {
        String::from_str("Paused")
    }
}

/// The window's title for a control state.
pub fn window_title(control: &ControlState) -> (title: String)
    ensures
        title@ == title_text(control@),
{
    let mut title = String::from_str("Game of Life is ");
    if control.is_running() {
        title.append("Running at ");
        append_decimal(&mut title, control.speed());
    } else {
        title.append("Paused");
    }
    proof {
        assert(title@ =~= title_text(control@));
    }
    title
}

} // verus!
