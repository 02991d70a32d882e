use zed_core::tetris::{BlockStatus, Game, Grid, Shape, Tetromino, GRID_HEIGHT, GRID_WIDTH};

#[test]
fn tetromino_rotation_cycles() {
    let mut piece = Tetromino::new(Shape::T);
    assert_eq!(piece.current_rotation()[0], (0, 0));
    let up = piece.current_rotation().clone();
    piece.rotate();
    let right = piece.current_rotation().clone();
    assert_ne!(up, right);
    piece.rotate();
    piece.rotate();
    piece.rotate();
    assert_eq!(piece.current_rotation(), &up);
}

#[test]
fn tetromino_has_four_rotations() {
    let piece = Tetromino::new(Shape::I);
    assert_eq!(piece.rotations().len(), 4);
    for rotation in piece.rotations() {
        assert_eq!(rotation.len(), 4);
        assert_eq!(rotation[0], (0, 0));
    }
}

#[test]
fn empty_grid_accepts_piece_in_bounds_only() {
    let grid = Grid::new();
    let piece = Tetromino::new(Shape::I);
    assert!(grid.place_piece(&piece, (4, 1)));
    assert!(!grid.place_piece(&piece, (0, 0)));  // the left arm leaves the grid
    assert!(!grid.place_piece(&piece, (4, -1)));
    assert!(!grid.place_piece(&piece, (9, 5)));  // the right arm leaves the grid
}

#[test]
fn fixed_piece_blocks_placement() {
    let mut grid = Grid::new();
    let piece = Tetromino::new(Shape::I);
    assert!(grid.place_piece(&piece, (4, 10)));
    grid.fix_piece(&piece, (4, 10));
    for x in 3..7 {
        assert_eq!(grid.cell(x, 10), BlockStatus::Occupied);
    }
    assert_eq!(grid.cell(2, 10), BlockStatus::Empty);
    assert!(!grid.place_piece(&piece, (4, 10)));
    assert!(grid.place_piece(&piece, (4, 11)));
}

#[test]
fn complete_row_detected_and_cleared() {
    let mut grid = Grid::new();
    let flat = Tetromino::new(Shape::I);
    let mut upright = Tetromino::new(Shape::I);
    upright.rotate();

    // Fill the bottom row: two flat pieces cover columns 0-7, two upright
    // pieces drop their lowest cell into columns 8 and 9.
    assert!(grid.place_piece(&flat, (1, 19)));
    grid.fix_piece(&flat, (1, 19));
    assert!(grid.place_piece(&flat, (5, 19)));
    grid.fix_piece(&flat, (5, 19));
    assert!(grid.place_piece(&upright, (8, 17)));
    grid.fix_piece(&upright, (8, 17));
    assert!(grid.place_piece(&upright, (9, 17)));
    grid.fix_piece(&upright, (9, 17));

    let complete = grid.check_complete_rows();
    assert_eq!(complete, vec![19]);

    grid.clear_and_shift_rows(complete);
    // The upright pieces' remaining cells moved down one row.
    assert_eq!(grid.cell(8, 19), BlockStatus::Occupied);
    assert_eq!(grid.cell(9, 19), BlockStatus::Occupied);
    assert_eq!(grid.cell(0, 19), BlockStatus::Empty);
    assert_eq!(grid.cell(4, 19), BlockStatus::Empty);
    // The top row is newly empty.
    for x in 0..GRID_WIDTH {
        assert_eq!(grid.cell(x, 0), BlockStatus::Empty);
    }
    assert!(grid.check_complete_rows().is_empty());
}

#[test]
fn two_complete_rows_cleared_together() {
    let mut grid = Grid::new();
    let flat = Tetromino::new(Shape::I);
    let mut upright = Tetromino::new(Shape::I);
    upright.rotate();

    // Fill the bottom two rows: flat pieces cover columns 0-7 of rows 18
    // and 19, upright pieces fill columns 8 and 9 of rows 16-19.
    for y in [18, 19] {
        assert!(grid.place_piece(&flat, (1, y)));
        grid.fix_piece(&flat, (1, y));
        assert!(grid.place_piece(&flat, (5, y)));
        grid.fix_piece(&flat, (5, y));
    }
    for x in [8, 9] {
        assert!(grid.place_piece(&upright, (x, 17)));
        grid.fix_piece(&upright, (x, 17));
    }

    let complete = grid.check_complete_rows();
    assert_eq!(complete, vec![18, 19]);

    grid.clear_and_shift_rows(complete);
    // Both listed rows are gone: no complete row remains anywhere.
    assert!(grid.check_complete_rows().is_empty());
    // The upright pieces' leftover cells (old rows 16 and 17) moved down
    // two rows; the rest of the bottom rows is clear.
    for y in [18, 19] {
        assert_eq!(grid.cell(8, y), BlockStatus::Occupied);
        assert_eq!(grid.cell(9, y), BlockStatus::Occupied);
        for x in 0..8 {
            assert_eq!(grid.cell(x, y), BlockStatus::Empty);
        }
    }
    // Two fresh empty rows sit at the top.
    for y in [0, 1] {
        for x in 0..GRID_WIDTH {
            assert_eq!(grid.cell(x, y), BlockStatus::Empty);
        }
    }
}

#[test]
fn clearing_no_rows_changes_nothing() {
    let mut grid = Grid::new();
    let piece = Tetromino::new(Shape::T);
    assert!(grid.place_piece(&piece, (4, 5)));
    grid.fix_piece(&piece, (4, 5));
    grid.clear_and_shift_rows(Vec::new());
    assert_eq!(grid.cell(4, 5), BlockStatus::Occupied);
    assert_eq!(grid.cell(4, 6), BlockStatus::Occupied);
}

#[test]
fn new_game_is_fresh() {
    let game = Game::new();
    assert_eq!(game.score(), 0);
    assert!(!game.is_paused());
    assert_eq!(game.position(), (4, 1));
    for y in 0..GRID_HEIGHT {
        for x in 0..GRID_WIDTH {
            assert_eq!(game.grid().cell(x, y), BlockStatus::Empty);
        }
    }
}

#[test]
fn update_advances_the_piece() {
    let mut game = Game::new();
    game.update_game_state();
    assert_eq!(game.position(), (4, 2));
    game.update_game_state();
    assert_eq!(game.position(), (4, 3));
    assert_eq!(game.score(), 0);
}

#[test]
fn piece_stops_at_the_floor() {
    let mut game = Game::new();
    for _ in 0..40 {
        game.update_game_state();
    }
    // The piece cannot leave the bottom row.
    assert_eq!(game.position(), (4, 19));
}
