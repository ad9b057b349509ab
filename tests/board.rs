use gb_tetris::config::{BOARD_HEIGHT, BOARD_WIDTH};
use gb_tetris::{Board, Tetromino, TetrominoType};

fn piece_at(t: TetrominoType, x: i32, y: i32) -> Tetromino {
    let mut p = Tetromino::new(t);
    p.x = x;
    p.y = y;
    p
}

#[test]
fn board_test_board_creation() {
    let board = Board::new();
    assert_eq!(board.grid().len(), BOARD_HEIGHT as usize);
    assert_eq!(board.grid()[0].len(), BOARD_WIDTH as usize);
}

#[test]
fn test_valid_position() {
    let board = Board::new();
    let piece = Tetromino::new(TetrominoType::I);
    assert!(board.is_valid_position(&piece));
}

#[test]
fn test_place_piece() {
    let mut board = Board::new();
    let mut piece = Tetromino::new(TetrominoType::O);
    piece.y = BOARD_HEIGHT - 2;

    board.place_piece(&piece);
    assert!(board.has_block(piece.x, piece.y));
}

#[test]
fn test_line_clearing() {
    let mut board = Board::new();
    board.place_piece(&piece_at(TetrominoType::I, 0, BOARD_HEIGHT - 1));
    board.place_piece(&piece_at(TetrominoType::I, 4, BOARD_HEIGHT - 1));
    let mut last = piece_at(TetrominoType::I, 8, BOARD_HEIGHT - 2);
    last.rotate();
    last.y = BOARD_HEIGHT - 4;
    board.place_piece(&last);
    let mut other = piece_at(TetrominoType::I, 9, BOARD_HEIGHT - 4);
    other.rotate();
    board.place_piece(&other);

    let cleared = board.clear_lines();
    assert_eq!(cleared, 1);
    assert!(!board.has_block(0, BOARD_HEIGHT - 1));
}

#[test]
fn lib_test_board_creation() {
    let board = Board::new();
    assert!(!board.has_block(0, 0));
}

#[test]
fn out_of_bounds_positions_are_rejected() {
    let board = Board::new();
    assert!(!board.is_valid_position(&piece_at(TetrominoType::I, -1, 5)));
    assert!(!board.is_valid_position(&piece_at(TetrominoType::I, 7, 5)));
    assert!(board.is_valid_position(&piece_at(TetrominoType::I, 6, 5)));
    assert!(!board.is_valid_position(&piece_at(TetrominoType::O, 3, BOARD_HEIGHT - 1)));
    assert!(board.is_valid_position(&piece_at(TetrominoType::O, 3, BOARD_HEIGHT - 2)));
}

#[test]
fn rows_above_the_top_are_open() {
    let board = Board::new();
    assert!(board.is_valid_position(&piece_at(TetrominoType::O, 3, -1)));
    assert!(board.is_valid_position(&piece_at(TetrominoType::O, 3, -5)));
}

#[test]
fn occupied_cells_collide() {
    let mut board = Board::new();
    board.place_piece(&piece_at(TetrominoType::O, 3, 10));
    assert!(!board.is_valid_position(&piece_at(TetrominoType::T, 2, 9)));
    assert!(board.is_valid_position(&piece_at(TetrominoType::T, 2, 7)));
}

#[test]
fn cells_above_the_top_are_dropped_on_commit() {
    let mut board = Board::new();
    board.place_piece(&piece_at(TetrominoType::O, 3, -1));
    assert!(board.has_block(3, 0));
    assert!(board.has_block(4, 0));
    assert!(!board.has_block(3, -1));
    let filled: usize = board
        .grid()
        .iter()
        .map(|row| row.iter().filter(|c| c.is_some()).count())
        .sum();
    assert_eq!(filled, 2);
}

#[test]
fn get_block_off_the_board_is_none() {
    let mut board = Board::new();
    board.place_piece(&piece_at(TetrominoType::O, 0, 0));
    assert!(board.get_block(0, 0).is_some());
    assert!(board.get_block(-1, 0).is_none());
    assert!(board.get_block(0, BOARD_HEIGHT).is_none());
    assert!(board.get_block(BOARD_WIDTH, 0).is_none());
}

#[test]
fn clearing_two_separate_rows_shifts_the_rest() {
    let mut board = Board::new();
    // rows 5 and 7 full
    for y in [5, 7] {
        board.place_piece(&piece_at(TetrominoType::I, 0, y));
        board.place_piece(&piece_at(TetrominoType::I, 4, y));
        board.place_piece(&piece_at(TetrominoType::O, 8, y));
    }
    // partial rows elsewhere
    board.place_piece(&piece_at(TetrominoType::O, 0, 2));
    board.place_piece(&piece_at(TetrominoType::I, 0, 19));
    board.place_piece(&piece_at(TetrominoType::T, 4, 12));
    let before: Vec<Vec<bool>> = board
        .grid()
        .iter()
        .map(|row| row.iter().map(|c| c.is_some()).collect())
        .collect();

    let cleared = board.clear_lines();
    assert_eq!(cleared, 2);

    let after: Vec<Vec<bool>> = board
        .grid()
        .iter()
        .map(|row| row.iter().map(|c| c.is_some()).collect())
        .collect();
    assert_eq!(after.len(), BOARD_HEIGHT as usize);
    assert!(after[0].iter().all(|c| !c));
    assert!(after[1].iter().all(|c| !c));
    let mut expected: Vec<Vec<bool>> = Vec::new();
    for (y, row) in before.iter().enumerate() {
        if y != 5 && y != 7 {
            expected.push(row.clone());
        }
    }
    assert_eq!(&after[2..], &expected[..]);
    // rows below the lower cleared row keep their place
    for y in 8..BOARD_HEIGHT as usize {
        assert_eq!(after[y], before[y]);
    }
    assert!(board.has_block(0, 4) && board.has_block(1, 5));
    assert!(board.has_block(8, 7) && board.has_block(9, 8));
}

#[test]
fn clear_resets_every_cell() {
    let mut board = Board::new();
    board.place_piece(&piece_at(TetrominoType::O, 3, 18));
    board.clear();
    assert!(!board.has_block(3, 18));
    assert_eq!(board.grid().len(), BOARD_HEIGHT as usize);
}
