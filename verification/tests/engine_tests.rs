use game_of_life::board::{
    create_game, create_game_with_size, get_version, sample_grid, tick, validate_dimensions,
    GameOfLifeWasm, GridError,
};
use game_of_life::engine::{
    count_neighbors, index, parse_initial_state, update, GameOfLife, HEIGHT, WIDTH,
};
use game_of_life::routes::snapshot;

fn glider_cells() -> Vec<(usize, usize)> {
    vec![(1, 0), (2, 1), (0, 2), (1, 2), (2, 2)]
}

fn grid_with_cells(cells: &[(usize, usize)]) -> Vec<u8> {
    let mut grid = vec![0u8; WIDTH * HEIGHT];
    for &(r, c) in cells {
        grid[r * WIDTH + c] = 1;
    }
    grid
}

#[test]
fn glider_translates_after_four_steps() {
    let initial = sample_grid();
    assert_eq!(initial, grid_with_cells(&glider_cells()));
    let live_before = initial.iter().filter(|&&c| c == 1).count();
    assert_eq!(live_before, 5);

    let mut gol = GameOfLife::new(initial);
    for _ in 0..4 {
        gol.step();
    }
    let moved: Vec<(usize, usize)> = glider_cells().iter().map(|&(r, c)| (r + 1, c + 1)).collect();
    assert_eq!(gol.get_state(), grid_with_cells(&moved));
    let live_after = gol.get_state().iter().filter(|&&c| c == 1).count();
    assert_eq!(live_after, 5);
}

#[test]
fn lone_corner_cell_dies() {
    let mut gol = GameOfLife::new(grid_with_cells(&[(0, 0)]));
    gol.step();
    assert_eq!(gol.get_state(), vec![0u8; WIDTH * HEIGHT]);
}

#[test]
fn step_back_restores_previous_grid() {
    let initial = sample_grid();
    let mut gol = GameOfLife::new(initial.clone());
    gol.step();
    assert_ne!(gol.get_state(), initial);
    assert!(gol.step_back());
    assert_eq!(gol.get_state(), initial);
    // rewinding past the start is a no-op reporting false
    assert!(!gol.step_back());
    assert_eq!(gol.get_state(), initial);
}

#[test]
fn reset_restores_initial_and_clears_history() {
    let initial = sample_grid();
    let mut gol = GameOfLife::new(initial.clone());
    gol.step();
    gol.step();
    gol.toggle_cell(5, 5);
    gol.reset();
    assert_eq!(gol.get_state(), initial);
    // the undo trail is gone, not rewound
    assert!(!gol.step_back());
    assert_eq!(gol.get_state(), initial);
}

#[test]
fn toggle_twice_restores_cell_and_out_of_bounds_is_ignored() {
    let initial = sample_grid();
    let mut gol = GameOfLife::new(initial.clone());
    gol.toggle_cell(4, 7);
    assert_eq!(gol.get_state()[4 * WIDTH + 7], 1);
    gol.toggle_cell(4, 7);
    assert_eq!(gol.get_state(), initial);
    gol.toggle_cell(HEIGHT, 0);
    gol.toggle_cell(0, WIDTH);
    gol.toggle_cell(usize::MAX, usize::MAX);
    assert_eq!(gol.get_state(), initial);
}

#[test]
fn neighbor_counts_clip_at_the_boundary() {
    let grid = grid_with_cells(&[(0, 0), (0, 1), (1, 0), (1, 1)]);
    assert_eq!(count_neighbors(&grid, 0, 0), 3);
    assert_eq!(count_neighbors(&grid, 1, 1), 3);
    assert_eq!(count_neighbors(&grid, 2, 2), 1);
    assert_eq!(count_neighbors(&grid, 19, 19), 0);
    assert_eq!(index(3, 4), 3 * WIDTH + 4);
}

#[test]
fn update_writes_one_generation() {
    // a blinker: a vertical triple flips to a horizontal one
    let grid = grid_with_cells(&[(1, 5), (2, 5), (3, 5)]);
    let mut next = Vec::new();
    update(&grid, &mut next);
    assert_eq!(next, grid_with_cells(&[(2, 4), (2, 5), (2, 6)]));
}

#[test]
fn parse_initial_state_reads_ones() {
    let rows: Vec<&str> = vec!["0100", "0010", "1110"];
    let grid = parse_initial_state(&rows);
    assert_eq!(grid, vec![0, 1, 0, 0, 0, 0, 1, 0, 1, 1, 1, 0]);
}

#[test]
fn snapshot_copies_state_and_dimensions() {
    let gol = GameOfLife::new(sample_grid());
    let state = snapshot(&gol);
    assert_eq!(state.grid, sample_grid());
    assert_eq!(state.width, WIDTH);
    assert_eq!(state.height, HEIGHT);
}

#[test]
fn board_edits_cells_and_counts() {
    let mut board = GameOfLifeWasm::new(5, 4);
    assert_eq!(board.get_dimensions(), (5, 4));
    assert_eq!(board.count_live_cells(), 0);
    board.set_cell(1, 2, true);
    board.set_cell(3, 4, true);
    assert!(board.get_cell(1, 2));
    assert!(!board.get_cell(0, 0));
    assert!(!board.get_cell(4, 0)); // off the canvas
    assert_eq!(board.count_live_cells(), 2);
    board.toggle_cell(1, 2);
    assert!(!board.get_cell(1, 2));
    board.toggle_cell(1, 2);
    assert!(board.get_cell(1, 2));
    board.set_cell(9, 9, true); // silently ignored
    assert_eq!(board.count_live_cells(), 2);
    board.clear();
    assert_eq!(board.count_live_cells(), 0);
    board.resize(3, 3);
    assert_eq!(board.get_dimensions(), (3, 3));
    assert_eq!(board.get_state(), vec![0u8; 9]);
}

#[test]
fn board_steps_like_the_engine() {
    let mut board = create_game();
    let initial = sample_grid();
    assert!(board.load_from_array(&initial, WIDTH, HEIGHT).is_ok());
    board.step();
    let mut gol = GameOfLife::new(initial);
    gol.step();
    assert_eq!(board.get_state(), gol.get_state());
}

#[test]
fn load_from_array_checks_length_and_binarizes() {
    let mut board = create_game_with_size(2, 2);
    assert_eq!(
        board.load_from_array(&vec![1, 0, 1], 2, 2),
        Err(GridError::DimensionMismatch)
    );
    assert_eq!(board.get_dimensions(), (2, 2));
    assert!(board.load_from_array(&vec![0, 2, 0, 255, 1, 0], 3, 2).is_ok());
    assert_eq!(board.get_dimensions(), (3, 2));
    assert_eq!(board.get_state(), vec![0, 1, 0, 1, 1, 0]);
}

#[test]
fn tick_advances_or_rejects_by_size() {
    let wrong = vec![1u8; 10];
    assert_eq!(tick(&wrong), wrong);

    let initial = sample_grid();
    let mut gol = GameOfLife::new(initial.clone());
    gol.step();
    assert_eq!(tick(&initial), gol.get_state());

    // nonzero bytes count as live cells before stepping
    let mut loud = vec![0u8; WIDTH * HEIGHT];
    loud[1 * WIDTH + 5] = 7;
    loud[2 * WIDTH + 5] = 9;
    loud[3 * WIDTH + 5] = 255;
    let mut blinker = GameOfLife::new(grid_with_cells(&[(1, 5), (2, 5), (3, 5)]));
    blinker.step();
    assert_eq!(tick(&loud), *blinker.get_state());
}

#[test]
fn dimension_validation_and_version() {
    assert!(validate_dimensions(1, 1));
    assert!(validate_dimensions(1000, 1000));
    assert!(!validate_dimensions(0, 10));
    assert!(!validate_dimensions(10, 0));
    assert!(!validate_dimensions(1001, 10));
    assert!(!validate_dimensions(10, 1001));
    assert_eq!(get_version(), "2.0.0-ultimate");
}

#[test]
fn empty_board_survives_a_step() {
    let mut board = GameOfLifeWasm::new(0, 0);
    board.step();
    assert_eq!(board.get_state(), Vec::<u8>::new());
    assert_eq!(board.get_dimensions(), (0, 0));
    assert_eq!(board.count_live_cells(), 0);
}
