//! A falling-block puzzle engine: the playfield, the pieces, the bag that
//! deals them, scoring, and the game session that ties them together.
pub mod bag;
pub mod board;
pub mod config;
pub mod piece;
pub mod scoring;
pub mod state;
pub mod types;

pub use bag::PieceBag;
pub use board::{Block, Board};
pub use piece::Tetromino;
pub use scoring::Scoring;
pub use state::GameState;
pub use types::TetrominoType;
