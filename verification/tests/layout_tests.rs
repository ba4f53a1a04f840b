use game_of_life::cell::CellState;
use game_of_life::grid::Grid;
use game_of_life::layout::{ConfigError, Layout, CELL_SIZE, WINDOW_HEIGHT, WINDOW_WIDTH};

#[test]
fn usual_layout_gives_170_by_170_cells() {
    let layout = Layout::default();
    assert_eq!(layout.width(), 1020);
    assert_eq!(layout.height(), 1020);
    assert_eq!(layout.cell_size(), 6);
    assert_eq!(layout.rows(), 170);
    assert_eq!(layout.cols(), 170);
    assert_eq!((WINDOW_WIDTH, WINDOW_HEIGHT, CELL_SIZE), (1020, 1020, 6));
    assert_eq!(Layout::new(1020, 1020, 6), Ok(layout));
}

#[test]
fn rows_come_from_height_and_columns_from_width() {
    let layout = Layout::new(100, 50, 10).expect("valid layout");
    assert_eq!(layout.rows(), 5);
    assert_eq!(layout.cols(), 10);
}

#[test]
fn leftover_pixels_are_margin() {
    let layout = Layout::new(1023, 1025, 6).expect("valid layout");
    assert_eq!(layout.cols(), 170);
    assert_eq!(layout.rows(), 170);
    let tight = Layout::new(11, 17, 6).expect("valid layout");
    assert_eq!(tight.cols(), 1);
    assert_eq!(tight.rows(), 2);
}

#[test]
fn zero_or_negative_cell_size_is_refused() {
    assert_eq!(Layout::new(100, 100, 0), Err(ConfigError::CellSize));
    assert_eq!(Layout::new(100, 100, -6), Err(ConfigError::CellSize));
    assert_eq!(Layout::new(0, 0, 0), Err(ConfigError::CellSize));
    assert_eq!(Layout::new(100, 100, i32::MIN), Err(ConfigError::CellSize));
}

#[test]
fn window_lower_than_a_cell_has_no_rows() {
    assert_eq!(Layout::new(100, 5, 6), Err(ConfigError::NoRows));
    assert_eq!(Layout::new(100, 0, 6), Err(ConfigError::NoRows));
    assert_eq!(Layout::new(100, -50, 6), Err(ConfigError::NoRows));
    assert_eq!(Layout::new(3, 3, 6), Err(ConfigError::NoRows));
}

#[test]
fn window_narrower_than_a_cell_has_no_columns() {
    assert_eq!(Layout::new(5, 100, 6), Err(ConfigError::NoColumns));
    assert_eq!(Layout::new(0, 100, 6), Err(ConfigError::NoColumns));
    assert_eq!(Layout::new(-1, 100, 6), Err(ConfigError::NoColumns));
}

#[test]
fn smallest_window_holds_one_cell() {
    let layout = Layout::new(6, 6, 6).expect("valid layout");
    assert_eq!(layout.rows(), 1);
    assert_eq!(layout.cols(), 1);
    let pixel = Layout::new(1, 1, 1).expect("valid layout");
    assert_eq!(pixel.rows(), 1);
    assert_eq!(pixel.cols(), 1);
}

#[test]
fn make_grid_has_the_layouts_dimensions() {
    let layout = Layout::new(40, 30, 10).expect("valid layout");
    let grid = layout.make_grid().expect("a small grid");
    assert_eq!(grid.rows(), 3);
    assert_eq!(grid.cols(), 4);
    assert_eq!(grid, Grid::new(3, 4).expect("valid dimensions"));
    assert!(layout.holds(&grid));
}

#[test]
fn holds_tells_other_shapes_apart() {
    let layout = Layout::new(40, 30, 10).expect("valid layout");
    assert!(!layout.holds(&Grid::new(4, 3).expect("valid dimensions")));
    assert!(!layout.holds(&Grid::new(3, 5).expect("valid dimensions")));
    assert!(!layout.holds(&Grid::new(2, 4).expect("valid dimensions")));
    let mut full = Grid::new(3, 4).expect("valid dimensions");
    full.fill(CellState::Alive);
    assert!(layout.holds(&full));
}
