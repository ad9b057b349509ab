use gb_tetris::config::{BOARD_HEIGHT, INITIAL_DROP_SPEED};
use gb_tetris::{GameState, Tetromino, TetrominoType};

#[test]
fn test_game_state_creation() {
    let state = GameState::new();
    assert!(!state.game_over);
    assert_eq!(state.scoring.level, 1);
}

#[test]
fn test_piece_movement() {
    let mut state = GameState::new();
    let initial_x = state.current_piece.x;

    assert!(state.try_move(1, 0));
    assert_eq!(state.current_piece.x, initial_x + 1);
}

#[test]
fn test_piece_rotation() {
    let mut state = GameState::new();
    let initial_shape = state.current_piece.shape.clone();

    state.try_rotate();
    assert_ne!(state.current_piece.shape, initial_shape);
}

#[test]
fn test_reset() {
    let mut state = GameState::new();
    state.game_over = true;
    state.scoring.score = 1000;

    state.reset();
    assert!(!state.game_over);
    assert_eq!(state.scoring.score, 0);
}

#[test]
fn test_game_creation() {
    let game = GameState::new();
    assert!(!game.game_over);
}

fn piece_at(t: TetrominoType, x: i32, y: i32) -> Tetromino {
    let mut p = Tetromino::new(t);
    p.x = x;
    p.y = y;
    p
}

#[test]
fn hard_drop_of_o_lands_on_the_bottom_row() {
    let mut state = GameState::new();
    state.current_piece = Tetromino::new(TetrominoType::O);
    let x = state.current_piece.x;
    let next_type = state.next_piece.piece_type;
    state.hard_drop();
    assert!(state.board.has_block(x, BOARD_HEIGHT - 1));
    assert!(state.board.has_block(x + 1, BOARD_HEIGHT - 1));
    assert!(state.board.has_block(x, BOARD_HEIGHT - 2));
    assert!(state.board.has_block(x + 1, BOARD_HEIGHT - 2));
    assert!(!state.board.has_block(x, BOARD_HEIGHT - 3));
    assert_eq!(state.scoring.lines_cleared, 0);
    assert_eq!(state.scoring.score, 0);
    assert!(!state.game_over);
    assert_eq!(state.current_piece.piece_type, next_type);
    assert_eq!((state.current_piece.x, state.current_piece.y), (3, 0));
}

#[test]
fn top_out_ends_the_game_and_freezes_it() {
    let mut state = GameState::new();
    for y in 2..BOARD_HEIGHT {
        state.board.place_piece(&piece_at(TetrominoType::I, 3, y));
    }
    state.current_piece = Tetromino::new(TetrominoType::I);
    state.next_piece = Tetromino::new(TetrominoType::O);

    // the I lands on row 1, below the spawn row, so play goes on
    state.hard_drop();
    assert!(!state.game_over);
    assert!(state.board.has_block(3, 1));
    assert_eq!(state.current_piece.piece_type, TetrominoType::O);
    assert!(!state.board.is_valid_position(&state.current_piece));

    // the O cannot move from the spawn row and locks there
    state.hard_drop();
    assert!(state.game_over);

    let piece = state.current_piece.clone();
    let score = state.scoring.score;
    let filled: Vec<Vec<bool>> = state
        .board
        .grid()
        .iter()
        .map(|row| row.iter().map(|c| c.is_some()).collect())
        .collect();
    assert!(!state.try_move(1, 0));
    assert!(!state.try_move(0, 1));
    assert!(!state.try_rotate());
    state.update(10 * INITIAL_DROP_SPEED);
    state.hard_drop();
    assert_eq!(state.current_piece.shape, piece.shape);
    assert_eq!((state.current_piece.x, state.current_piece.y), (piece.x, piece.y));
    assert_eq!(state.scoring.score, score);
    let after: Vec<Vec<bool>> = state
        .board
        .grid()
        .iter()
        .map(|row| row.iter().map(|c| c.is_some()).collect())
        .collect();
    assert_eq!(after, filled);
    assert!(state.game_over);

    state.reset();
    assert!(!state.game_over);
    assert!(!state.board.has_block(3, 10));
}

#[test]
fn gravity_waits_for_the_interval() {
    let mut state = GameState::new();
    let y = state.current_piece.y;
    state.update(INITIAL_DROP_SPEED - 1);
    assert_eq!(state.current_piece.y, y);
    state.update(1);
    assert_eq!(state.current_piece.y, y + 1);
    state.update(INITIAL_DROP_SPEED - 1);
    assert_eq!(state.current_piece.y, y + 1);
}

#[test]
fn gravity_locks_a_piece_that_cannot_fall() {
    let mut state = GameState::new();
    state.current_piece = piece_at(TetrominoType::O, 3, BOARD_HEIGHT - 2);
    let next_type = state.next_piece.piece_type;
    state.update(INITIAL_DROP_SPEED);
    assert!(state.board.has_block(3, BOARD_HEIGHT - 1));
    assert_eq!(state.current_piece.piece_type, next_type);
    assert_eq!(state.current_piece.y, 0);
}

#[test]
fn ghost_shows_the_landing_row() {
    let mut state = GameState::new();
    state.current_piece = Tetromino::new(TetrominoType::O);
    let ghost = state.get_ghost_piece();
    assert_eq!(ghost.y, BOARD_HEIGHT - 2);
    assert_eq!(ghost.x, state.current_piece.x);
    assert_eq!(state.current_piece.y, 0);

    state.board.place_piece(&piece_at(TetrominoType::I, 3, 12));
    let ghost = state.get_ghost_piece();
    assert_eq!(ghost.y, 10);
}

#[test]
fn moves_against_the_walls_are_rejected() {
    let mut state = GameState::new();
    state.current_piece = Tetromino::new(TetrominoType::O);
    for _ in 0..3 {
        assert!(state.try_move(-1, 0));
    }
    assert_eq!(state.current_piece.x, 0);
    assert!(!state.try_move(-1, 0));
    assert_eq!(state.current_piece.x, 0);
    assert!(!state.try_move(i32::MIN, 0));
}

#[test]
fn a_full_row_is_cleared_and_scored_on_lock() {
    let mut state = GameState::new();
    state.board.place_piece(&piece_at(TetrominoType::I, 0, BOARD_HEIGHT - 1));
    state.board.place_piece(&piece_at(TetrominoType::I, 4, BOARD_HEIGHT - 1));
    state.current_piece = piece_at(TetrominoType::O, 8, 0);
    state.hard_drop();
    assert_eq!(state.scoring.lines_cleared, 1);
    assert_eq!(state.scoring.score, 40);
    assert!(state.board.has_block(8, BOARD_HEIGHT - 1));
    assert!(!state.board.has_block(0, BOARD_HEIGHT - 1));
}

#[test]
fn help_overlay_toggles() {
    let mut state = GameState::new();
    assert!(state.show_help);
    state.toggle_help();
    assert!(!state.show_help);
    state.toggle_help();
    assert!(state.show_help);
    state.hide_help();
    assert!(!state.show_help);
}

#[test]
fn moves_far_above_the_board_are_allowed() {
    let mut state = GameState::new();
    state.current_piece = Tetromino::new(TetrominoType::O);
    assert!(state.try_move(0, i32::MIN));
    assert_eq!(state.current_piece.y, i32::MIN);
    assert!(!state.try_move(0, -1));
    assert_eq!(state.current_piece.get_blocks().len(), 4);
    assert!(state.try_move(0, i32::MAX));
    assert_eq!(state.current_piece.y, -1);
}
