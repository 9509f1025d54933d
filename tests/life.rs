use game_of_life::engine::{next_generation, partition, step_partitioned};
use game_of_life::grid::{Grid, GridError};
use game_of_life::rules::next_state;
use game_of_life::simulation::{App, Command};

fn grid_with(rows: usize, cols: usize, alive: &[(usize, usize)]) -> Grid {
    let mut g = Grid::new(rows, cols);
    for &(x, y) in alive {
        g.set(x, y, true).unwrap();
    }
    g
}

fn alive_cells(g: &Grid) -> Vec<(usize, usize)> {
    let mut out = Vec::new();
    for y in 0..g.rows() {
        for x in 0..g.cols() {
            if g.get(x, y).unwrap() {
                out.push((x, y));
            }
        }
    }
    out
}

#[test]
fn rule_is_total() {
    for n in 0u8..=8 {
        assert_eq!(next_state(true, n), n == 2 || n == 3);
        assert_eq!(next_state(false, n), n == 3);
    }
}

#[test]
fn underpopulation_kills() {
    let g = grid_with(5, 5, &[(2, 2), (3, 2)]);
    assert_eq!(g.neighbor_count(2, 2), 1);
    let n = next_generation(&g);
    assert_eq!(n.get(2, 2), Ok(false));
    let lone = grid_with(4, 4, &[(1, 1)]);
    assert_eq!(next_generation(&lone).get(1, 1), Ok(false));
}

#[test]
fn survival_keeps() {
    let g = grid_with(6, 6, &[(1, 1), (2, 2), (3, 3)]);
    assert_eq!(g.neighbor_count(2, 2), 2);
    assert_eq!(next_generation(&g).get(2, 2), Ok(true));
    let h = grid_with(6, 6, &[(1, 1), (2, 2), (3, 3), (1, 3)]);
    assert_eq!(h.neighbor_count(2, 2), 3);
    assert_eq!(next_generation(&h).get(2, 2), Ok(true));
}

#[test]
fn overpopulation_kills() {
    let g = grid_with(6, 6, &[(1, 1), (2, 1), (3, 1), (1, 2), (2, 2)]);
    assert_eq!(g.neighbor_count(2, 2), 4);
    assert_eq!(next_generation(&g).get(2, 2), Ok(false));
}

#[test]
fn birth_with_exactly_three() {
    let g = grid_with(6, 6, &[(1, 1), (3, 1), (2, 3)]);
    assert_eq!(g.neighbor_count(2, 2), 3);
    assert_eq!(next_generation(&g).get(2, 2), Ok(true));
    let h = grid_with(6, 6, &[(1, 1), (3, 1)]);
    assert_eq!(h.neighbor_count(2, 2), 2);
    assert_eq!(next_generation(&h).get(2, 2), Ok(false));
    let k = grid_with(6, 6, &[(1, 1), (3, 1), (2, 3), (1, 2)]);
    assert_eq!(k.neighbor_count(2, 2), 4);
    assert_eq!(next_generation(&k).get(2, 2), Ok(false));
}

#[test]
fn corner_neighbors_wrap_around() {
    let (rows, cols) = (3, 4);
    for &(x, y) in &[(cols - 1, rows - 1), (cols - 1, 0), (0, rows - 1), (1, 0), (0, 1), (1, 1)] {
        let g = grid_with(rows, cols, &[(x, y)]);
        assert_eq!(g.neighbor_count(0, 0), 1, "neighbor ({}, {})", x, y);
    }
    let far = grid_with(rows, cols, &[(2, 1)]);
    assert_eq!(far.neighbor_count(0, 0), 0);
    let mut all = Grid::new(rows, cols);
    for y in 0..rows {
        for x in 0..cols {
            all.set(x, y, true).unwrap();
        }
    }
    assert_eq!(all.neighbor_count(0, 0), 8);
    assert_eq!(all.neighbor_count(cols - 1, rows - 1), 8);
}

#[test]
fn pass_leaves_snapshot_unchanged() {
    let prev = grid_with(5, 5, &[(1, 2), (2, 2), (3, 2), (0, 0)]);
    let before = prev.cells().clone();
    let _ = next_generation(&prev);
    let mut next = Grid::new(5, 5);
    step_partitioned(&prev, &mut next, 3);
    assert_eq!(prev.cells(), &before);
}

#[test]
fn partition_covers_each_index_once() {
    for len in [0usize, 1, 7, 25, 100] {
        for workers in 1usize..=12 {
            let b = partition(len, workers);
            assert_eq!(b.len(), workers + 1);
            let mut seen = vec![0u32; len];
            for k in 0..workers {
                assert!(b[k] <= b[k + 1]);
                let size = b[k + 1] - b[k];
                assert!(size == len / workers || size == len / workers + 1);
                for i in b[k]..b[k + 1] {
                    seen[i] += 1;
                }
            }
            assert!(seen.iter().all(|&c| c == 1));
        }
    }
    assert_eq!(partition(10, 3), vec![0, 4, 7, 10]);
}

#[test]
fn partitioned_pass_matches_parallel_pass() {
    let mut prev = Grid::new(7, 9);
    prev.randomize();
    let expected = next_generation(&prev);
    for workers in 1usize..=10 {
        let mut next = Grid::new(7, 9);
        step_partitioned(&prev, &mut next, workers);
        assert_eq!(next.cells(), expected.cells());
    }
}

#[test]
fn clear_twice_same_as_once() {
    let mut g = grid_with(4, 5, &[(0, 0), (4, 3), (2, 2)]);
    g.clear();
    let once = g.cells().clone();
    g.clear();
    assert_eq!(g.cells(), &once);
    assert!(once.iter().all(|&c| !c));
    assert_eq!(once.len(), 20);
}

#[test]
fn pause_twice_restores() {
    let mut app = App::new(grid_with(4, 4, &[(1, 1)]), 2);
    assert!(!app.paused());
    app.event(Command::TogglePause);
    assert!(app.paused());
    app.event(Command::TogglePause);
    assert!(!app.paused());
    assert_eq!(alive_cells(app.grid()), vec![(1, 1)]);
}

#[test]
fn blinker_on_five_by_five() {
    let g = grid_with(5, 5, &[(1, 2), (2, 2), (3, 2)]);
    let n = next_generation(&g);
    assert_eq!(alive_cells(&n), vec![(2, 1), (2, 2), (2, 3)]);
    let back = next_generation(&n);
    assert_eq!(alive_cells(&back), vec![(1, 2), (2, 2), (3, 2)]);
    let mut seq = Grid::new(5, 5);
    step_partitioned(&g, &mut seq, 4);
    assert_eq!(alive_cells(&seq), vec![(2, 1), (2, 2), (2, 3)]);
}

#[test]
fn block_is_still_life() {
    let block = [(2, 2), (3, 2), (2, 3), (3, 3)];
    let mut g = grid_with(8, 8, &block);
    for _ in 0..5 {
        g = next_generation(&g);
        assert_eq!(alive_cells(&g), vec![(2, 2), (3, 2), (2, 3), (3, 3)]);
    }
}

#[test]
fn randomize_then_clear_leaves_all_dead() {
    for _ in 0..5 {
        let mut app = App::new_random(6, 7, 3);
        app.event(Command::Randomize);
        app.event(Command::Clear);
        assert!(alive_cells(app.grid()).is_empty());
        assert_eq!(app.grid().len(), 42);
    }
}

#[test]
fn randomize_draws_both_states() {
    let mut g = Grid::new(40, 40);
    g.randomize();
    let alive = g.cells().iter().filter(|&&c| c).count();
    assert!(alive > 0 && alive < 1600);
    assert_eq!(g.rows(), 40);
    assert_eq!(g.cols(), 40);
}

#[test]
fn out_of_range_access_is_refused() {
    let mut g = grid_with(3, 4, &[(3, 2)]);
    assert_eq!(g.get(3, 2), Ok(true));
    assert_eq!(g.get(4, 0), Err(GridError::OutOfRange));
    assert_eq!(g.get(0, 3), Err(GridError::OutOfRange));
    assert_eq!(g.set(4, 0, true), Err(GridError::OutOfRange));
    assert_eq!(g.toggle(0, 3), Err(GridError::OutOfRange));
    assert_eq!(alive_cells(&g), vec![(3, 2)]);
    assert_eq!(g.toggle(3, 2), Ok(()));
    assert_eq!(g.get(3, 2), Ok(false));
}

#[test]
fn from_cells_validates_shape() {
    assert!(Grid::from_cells(0, 3, vec![]).is_none());
    assert!(Grid::from_cells(2, 0, vec![]).is_none());
    assert!(Grid::from_cells(2, 3, vec![false; 5]).is_none());
    assert!(Grid::from_cells(2, 3, vec![false; 7]).is_none());
    let g = Grid::from_cells(2, 3, vec![false, true, false, false, false, true]).unwrap();
    assert_eq!(alive_cells(&g), vec![(1, 0), (2, 1)]);
}

#[test]
fn press_flips_cell_under_pointer() {
    let mut app = App::new(Grid::new(3, 4), 4);
    app.event(Command::Press { px: 9, py: 5 });
    assert_eq!(alive_cells(app.grid()), vec![(2, 1)]);
    app.event(Command::Press { px: 11, py: 7 });
    assert!(alive_cells(app.grid()).is_empty());
    app.event(Command::Press { px: 16, py: 0 });
    app.event(Command::Press { px: 0, py: 12 });
    assert!(alive_cells(app.grid()).is_empty());
}

#[test]
fn paused_frame_applies_edits_without_a_step() {
    let mut app = App::new(Grid::new(5, 5), 1);
    app.frame(&vec![
        Command::TogglePause,
        Command::Press { px: 1, py: 2 },
        Command::Press { px: 2, py: 2 },
        Command::Press { px: 3, py: 2 },
    ]);
    assert!(app.paused());
    assert_eq!(alive_cells(app.grid()), vec![(1, 2), (2, 2), (3, 2)]);
    app.frame(&vec![Command::TogglePause]);
    assert_eq!(alive_cells(app.grid()), vec![(2, 1), (2, 2), (2, 3)]);
    app.update();
    assert_eq!(alive_cells(app.grid()), vec![(1, 2), (2, 2), (3, 2)]);
}
