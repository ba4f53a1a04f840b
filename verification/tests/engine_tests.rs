use game_of_life::cell::CellState;
use game_of_life::engine::{apply_rule, count_live_neighbors, step, StepEngine};
use game_of_life::grid::Grid;

fn board(rows: usize, cols: usize, live: &[(i64, i64)]) -> Grid {
    let mut g = Grid::new(rows, cols).expect("valid dimensions");
    for &(r, c) in live {
        g.set(r, c, CellState::Alive);
    }
    g
}

fn live_cells(g: &Grid) -> Vec<(i64, i64)> {
    let mut found = Vec::new();
    for r in 0..g.rows() as i64 {
        for c in 0..g.cols() as i64 {
            if g.get(r, c) == CellState::Alive {
                found.push((r, c));
            }
        }
    }
    found
}

#[test]
fn rule_survival_needs_two_or_three() {
    let expected = [false, false, true, true, false, false, false, false, false];
    for n in 0..=8u8 {
        let next = apply_rule(CellState::Alive, n);
        assert_eq!(next == CellState::Alive, expected[n as usize]);
    }
}

#[test]
fn rule_birth_needs_exactly_three() {
    for n in 0..=8u8 {
        let next = apply_rule(CellState::Dead, n);
        assert_eq!(next == CellState::Alive, n == 3);
    }
}

#[test]
fn dead_grid_has_no_live_neighbors() {
    let g = board(5, 5, &[]);
    for r in -7..12 {
        for c in -7..12 {
            assert_eq!(count_live_neighbors(&g, r, c), 0);
        }
    }
}

#[test]
fn neighbor_count_stays_within_eight() {
    let mut g = board(4, 4, &[]);
    g.fill(CellState::Alive);
    for r in -5..9 {
        for c in -5..9 {
            assert_eq!(count_live_neighbors(&g, r, c), 8);
        }
    }
    let sparse = board(5, 6, &[(0, 0), (2, 3), (4, 5), (1, 1)]);
    for r in 0..5 {
        for c in 0..6 {
            assert!(count_live_neighbors(&sparse, r, c) <= 8);
        }
    }
}

#[test]
fn neighbor_count_excludes_the_cell_itself() {
    let g = board(5, 5, &[(2, 2)]);
    assert_eq!(count_live_neighbors(&g, 2, 2), 0);
    for (r, c) in [(1, 1), (1, 2), (1, 3), (2, 1), (2, 3), (3, 1), (3, 2), (3, 3)] {
        assert_eq!(count_live_neighbors(&g, r, c), 1);
    }
    assert_eq!(count_live_neighbors(&g, 0, 0), 0);
    assert_eq!(count_live_neighbors(&g, 4, 2), 0);
}

#[test]
fn neighbor_count_wraps_around_the_edges() {
    let g = board(5, 5, &[(4, 4), (0, 4), (4, 0)]);
    assert_eq!(count_live_neighbors(&g, 0, 0), 3);
    assert_eq!(count_live_neighbors(&g, 4, 4), 2);
    assert_eq!(count_live_neighbors(&g, 2, 2), 0);
    assert_eq!(count_live_neighbors(&g, 5, 5), 3);
    assert_eq!(count_live_neighbors(&g, -5, -10), 3);
}

#[test]
fn neighbor_count_on_a_tiny_torus_counts_a_cell_once_per_offset() {
    let g = board(1, 1, &[(0, 0)]);
    assert_eq!(count_live_neighbors(&g, 0, 0), 8);
    let pair = board(1, 2, &[(0, 0)]);
    assert_eq!(count_live_neighbors(&pair, 0, 0), 2);
    assert_eq!(count_live_neighbors(&pair, 0, 1), 6);
}

#[test]
fn lone_cell_dies_of_underpopulation() {
    let mut g = board(5, 5, &[(2, 2)]);
    step(&mut g);
    assert_eq!(live_cells(&g), Vec::new());
    assert_eq!(g, board(5, 5, &[]));
}

#[test]
fn block_is_a_still_life() {
    let start = board(5, 5, &[(1, 1), (1, 2), (2, 1), (2, 2)]);
    let mut g = start.clone();
    let mut engine = StepEngine::new(&g);
    for _ in 0..10 {
        engine.step(&mut g);
        assert_eq!(g, start);
    }
}

#[test]
fn blinker_oscillates_with_period_two() {
    let horizontal = board(5, 5, &[(2, 1), (2, 2), (2, 3)]);
    let vertical = board(5, 5, &[(1, 2), (2, 2), (3, 2)]);
    let mut g = horizontal.clone();
    step(&mut g);
    assert_eq!(g, vertical);
    assert_eq!(live_cells(&g), vec![(1, 2), (2, 2), (3, 2)]);
    step(&mut g);
    assert_eq!(g, horizontal);
}

#[test]
fn dead_cell_with_three_neighbors_is_born() {
    let mut g = board(5, 5, &[(1, 1), (1, 3), (3, 2)]);
    assert_eq!(count_live_neighbors(&g, 2, 2), 3);
    step(&mut g);
    assert_eq!(g.get(2, 2), CellState::Alive);
}

#[test]
fn dead_cell_with_two_neighbors_stays_dead() {
    let mut g = board(5, 5, &[(1, 1), (3, 3)]);
    assert_eq!(count_live_neighbors(&g, 2, 2), 2);
    step(&mut g);
    assert_eq!(g.get(2, 2), CellState::Dead);
}

#[test]
fn dead_cell_with_four_neighbors_stays_dead() {
    let mut g = board(5, 5, &[(1, 1), (1, 3), (3, 1), (3, 3)]);
    assert_eq!(count_live_neighbors(&g, 2, 2), 4);
    step(&mut g);
    assert_eq!(g.get(2, 2), CellState::Dead);
}

#[test]
fn live_cell_with_four_neighbors_dies_of_overpopulation() {
    let mut g = board(5, 5, &[(2, 2), (1, 1), (1, 3), (3, 1), (3, 3)]);
    step(&mut g);
    assert_eq!(g.get(2, 2), CellState::Dead);
}

#[test]
fn glider_moves_one_cell_diagonally_in_four_steps() {
    let mut g = board(8, 8, &[(0, 1), (1, 2), (2, 0), (2, 1), (2, 2)]);
    let mut engine = StepEngine::new(&g);
    for _ in 0..4 {
        engine.step(&mut g);
    }
    assert_eq!(g, board(8, 8, &[(1, 2), (2, 3), (3, 1), (3, 2), (3, 3)]));
}

#[test]
fn blinker_across_the_edge_wraps() {
    let mut g = board(5, 5, &[(0, 4), (0, 0), (0, 1)]);
    step(&mut g);
    assert_eq!(g, board(5, 5, &[(4, 0), (0, 0), (1, 0)]));
}

#[test]
fn step_reads_only_the_previous_generation() {
    // A row of three on a 3x5 torus: every cell of the middle column has
    // three live neighbours, so a step that read its own output would differ.
    let mut g = board(3, 5, &[(1, 1), (1, 2), (1, 3)]);
    step(&mut g);
    assert_eq!(g, board(3, 5, &[(0, 2), (1, 2), (2, 2)]));
}

#[test]
fn step_is_a_function_of_the_grid_alone() {
    let start = board(6, 7, &[(0, 0), (0, 1), (1, 0), (3, 3), (3, 4), (3, 5), (5, 6), (2, 4)]);
    let mut first = start.clone();
    let mut second = start.clone();
    step(&mut first);
    step(&mut second);
    assert_eq!(first, second);

    // An engine that has stepped another grid before gives the same result.
    let mut other = board(6, 7, &[(4, 4), (4, 5), (5, 4)]);
    let mut used = StepEngine::new(&other);
    used.step(&mut other);
    let mut third = start.clone();
    used.step(&mut third);
    assert_eq!(third, first);
}

#[test]
fn engine_made_for_another_shape_still_steps() {
    let small = board(2, 2, &[]);
    let mut engine = StepEngine::new(&small);
    let mut g = board(5, 5, &[(2, 1), (2, 2), (2, 3)]);
    engine.step(&mut g);
    assert_eq!(g, board(5, 5, &[(1, 2), (2, 2), (3, 2)]));
    assert_eq!(g.rows(), 5);
    assert_eq!(g.cols(), 5);
}

#[test]
fn step_keeps_the_dimensions() {
    let mut g = board(3, 9, &[(0, 0), (1, 1), (2, 2)]);
    step(&mut g);
    assert_eq!(g.rows(), 3);
    assert_eq!(g.cols(), 9);
}
