use gb_tetris::{Tetromino, TetrominoType};

#[test]
fn test_tetromino_creation() {
    let piece = Tetromino::new(TetrominoType::I);
    assert_eq!(piece.piece_type, TetrominoType::I);
    assert!(!piece.shape.is_empty());
}

#[test]
fn test_tetromino_movement() {
    let mut piece = Tetromino::new(TetrominoType::T);
    let initial_x = piece.x;
    let initial_y = piece.y;

    piece.move_by(1, 2);
    assert_eq!(piece.x, initial_x + 1);
    assert_eq!(piece.y, initial_y + 2);
}

#[test]
fn test_tetromino_rotation() {
    let mut piece = Tetromino::new(TetrominoType::I);
    let initial_shape = piece.shape.clone();

    piece.rotate();
    assert_ne!(piece.shape, initial_shape);

    piece.rotate();
    piece.rotate();
    piece.rotate();
    assert_eq!(piece.shape.len(), initial_shape.len());
}

#[test]
fn test_get_blocks() {
    let piece = Tetromino::new(TetrominoType::O);
    let blocks = piece.get_blocks();

    assert_eq!(blocks.len(), 4);
}

#[test]
fn test_tetromino_types() {
    let types = TetrominoType::all();
    assert_eq!(types.len(), 7);
}

#[test]
fn catalog_shapes() {
    let t = true;
    let f = false;
    assert_eq!(TetrominoType::I.get_shape(), vec![vec![t, t, t, t]]);
    assert_eq!(TetrominoType::O.get_shape(), vec![vec![t, t], vec![t, t]]);
    assert_eq!(TetrominoType::T.get_shape(), vec![vec![f, t, f], vec![t, t, t]]);
    assert_eq!(TetrominoType::S.get_shape(), vec![vec![f, t, t], vec![t, t, f]]);
    assert_eq!(TetrominoType::Z.get_shape(), vec![vec![t, t, f], vec![f, t, t]]);
    assert_eq!(TetrominoType::J.get_shape(), vec![vec![t, f, f], vec![t, t, t]]);
    assert_eq!(TetrominoType::L.get_shape(), vec![vec![f, f, t], vec![t, t, t]]);
}

#[test]
fn spawn_origin_is_centred() {
    let piece = Tetromino::new(TetrominoType::Z);
    assert_eq!(piece.x, 3);
    assert_eq!(piece.y, 0);
}

#[test]
fn quarter_turn_clockwise() {
    let mut piece = Tetromino::new(TetrominoType::T);
    piece.rotate();
    let t = true;
    let f = false;
    assert_eq!(piece.shape, vec![vec![t, f], vec![t, t], vec![t, f]]);
    let mut j = Tetromino::new(TetrominoType::J);
    j.rotate();
    assert_eq!(j.shape, vec![vec![t, t], vec![t, f], vec![t, f]]);
}

#[test]
fn four_turns_restore_every_shape() {
    for t in TetrominoType::all() {
        let mut piece = Tetromino::new(t);
        let before = piece.get_blocks();
        for _ in 0..4 {
            piece.rotate();
        }
        assert_eq!(piece.shape, t.get_shape());
        assert_eq!(piece.get_blocks(), before);
    }
}

#[test]
fn blocks_are_offset_by_the_origin() {
    let mut piece = Tetromino::new(TetrominoType::S);
    piece.x = 5;
    piece.y = -1;
    assert_eq!(piece.get_blocks(), vec![(6, -1), (7, -1), (5, 0), (6, 0)]);
}

#[test]
fn reset_position_returns_to_spawn() {
    let mut piece = Tetromino::new(TetrominoType::L);
    piece.move_by(-2, 7);
    piece.reset_position();
    assert_eq!((piece.x, piece.y), (3, 0));
}
