use game_of_life::cell::CellState;
use game_of_life::control::ControlState;
use game_of_life::grid::Grid;
use game_of_life::layout::Layout;
use game_of_life::render::{append_decimal, status_label, tiles, window_title, Palette, Rgba, Tile};

const GREY: Rgba = Rgba { r: 29, g: 29, b: 29, a: 255 };
const DARK_GREY: Rgba = Rgba { r: 55, g: 55, b: 55, a: 255 };
const GREEN: Rgba = Rgba { r: 0, g: 228, b: 48, a: 255 };

#[test]
fn usual_palette_has_the_three_colours() {
    let palette = Palette::default();
    assert_eq!(palette.background, GREY);
    assert_eq!(palette.dead, DARK_GREY);
    assert_eq!(palette.alive, GREEN);
}

#[test]
fn cell_color_follows_the_state() {
    let palette = Palette::default();
    assert_eq!(palette.cell_color(CellState::Alive), GREEN);
    assert_eq!(palette.cell_color(CellState::Dead), DARK_GREY);
    let other = Palette { background: GREEN, dead: GREY, alive: DARK_GREY };
    assert_eq!(other.cell_color(CellState::Alive), DARK_GREY);
    assert_eq!(other.cell_color(CellState::Dead), GREY);
}

#[test]
fn tiles_lists_one_rectangle_per_cell_row_by_row() {
    let layout = Layout::new(18, 12, 6).expect("valid layout");
    let mut grid = layout.make_grid().expect("a small grid");
    grid.set(1, 2, CellState::Alive);
    grid.set(0, 1, CellState::Alive);
    let list = tiles(&layout, &Palette::default(), &grid);
    let tile = |x: i32, y: i32, color: Rgba| Tile { x, y, width: 5, height: 5, color };
    assert_eq!(
        list,
        vec![
            tile(0, 0, DARK_GREY),
            tile(6, 0, GREEN),
            tile(12, 0, DARK_GREY),
            tile(0, 6, DARK_GREY),
            tile(6, 6, DARK_GREY),
            tile(12, 6, GREEN),
        ]
    );
}

#[test]
fn tiles_of_the_usual_window() {
    let layout = Layout::default();
    let mut grid = layout.make_grid().expect("the usual grid");
    grid.set(169, 169, CellState::Alive);
    let list = tiles(&layout, &Palette::default(), &grid);
    assert_eq!(list.len(), 170 * 170);
    assert_eq!(list[0], Tile { x: 0, y: 0, width: 5, height: 5, color: DARK_GREY });
    assert_eq!(list[171], Tile { x: 6, y: 6, width: 5, height: 5, color: DARK_GREY });
    assert_eq!(
        list[170 * 170 - 1],
        Tile { x: 1014, y: 1014, width: 5, height: 5, color: GREEN }
    );
    assert_eq!(list[3 * 170 + 7].x, 42);
    assert_eq!(list[3 * 170 + 7].y, 18);
}

#[test]
fn tiles_with_cell_size_one_are_empty_rectangles() {
    let layout = Layout::new(2, 1, 1).expect("valid layout");
    let grid = layout.make_grid().expect("a small grid");
    let list = tiles(&layout, &Palette::default(), &grid);
    assert_eq!(
        list,
        vec![
            Tile { x: 0, y: 0, width: 0, height: 0, color: DARK_GREY },
            Tile { x: 1, y: 0, width: 0, height: 0, color: DARK_GREY },
        ]
    );
}

#[test]
fn tiles_reach_the_largest_window() {
    let layout = Layout::new(i32::MAX, 1, 1).expect("valid layout");
    assert_eq!(layout.cols(), i32::MAX as usize);
    let wide = Layout::new(i32::MAX, i32::MAX, i32::MAX).expect("valid layout");
    let grid = wide.make_grid().expect("one cell");
    let list = tiles(&wide, &Palette::default(), &grid);
    assert_eq!(
        list,
        vec![Tile { x: 0, y: 0, width: i32::MAX - 1, height: i32::MAX - 1, color: DARK_GREY }]
    );
}

#[test]
fn append_decimal_writes_plain_decimal_notation() {
    for n in [0u32, 1, 7, 9, 10, 11, 12, 99, 100, 101, 1000, 65535, 4294967295] {
        let mut text = String::from("n=");
        append_decimal(&mut text, n);
        assert_eq!(text, format!("n={}", n));
    }
}

#[test]
fn append_decimal_exact_texts() {
    let mut text = String::new();
    append_decimal(&mut text, 0);
    assert_eq!(text, "0");
    append_decimal(&mut text, 120);
    assert_eq!(text, "0120");
    append_decimal(&mut text, 4294967295);
    assert_eq!(text, "01204294967295");
}

#[test]
fn paused_title() {
    let control = ControlState::default();
    assert_eq!(window_title(&control), "Game of Life is Paused");
    assert_eq!(status_label(&control), "Paused");
}

#[test]
fn running_title_shows_the_speed() {
    let mut control = ControlState::default();
    control.toggle_run();
    assert_eq!(window_title(&control), "Game of Life is Running at 12");
    assert_eq!(status_label(&control), "Running at 12");
    control.increase_speed(2);
    assert_eq!(window_title(&control), "Game of Life is Running at 14");
    control.increase_speed(u32::MAX);
    assert_eq!(window_title(&control), "Game of Life is Running at 4294967295");
    assert_eq!(status_label(&control), "Running at 4294967295");
}

#[test]
fn title_of_a_slow_simulation_has_one_digit() {
    let mut control = ControlState::new(7, 1, 1);
    control.toggle_run();
    assert_eq!(window_title(&control), "Game of Life is Running at 7");
    control.decrease_speed(6);
    assert_eq!(status_label(&control), "Running at 1");
}
