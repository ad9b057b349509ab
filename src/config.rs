use vstd::prelude::*;

verus! {

/// Number of columns of the playfield.
pub const BOARD_WIDTH: i32 = 10;

/// Number of rows of the playfield; row 0 is the top.
pub const BOARD_HEIGHT: i32 = 20;

/// Milliseconds between two gravity steps at level 1.
pub const INITIAL_DROP_SPEED: u32 = 800;

/// The gravity interval never gets shorter than this many milliseconds.
pub const MIN_DROP_SPEED: u32 = 100;

/// How many milliseconds each level takes off the gravity interval.
pub const SPEED_INCREASE_PER_LEVEL: u32 = 70;

/// Cleared lines needed to go up one level.
pub const LINES_PER_LEVEL: u32 = 10;

/// Base award for one line cleared at once.
pub const SCORE_SINGLE: u32 = 40;

/// Base award for two lines cleared at once.
pub const SCORE_DOUBLE: u32 = 100;

/// Base award for three lines cleared at once.
pub const SCORE_TRIPLE: u32 = 300;

/// Base award for four lines cleared at once.
pub const SCORE_TETRIS: u32 = 1200;

} // verus!
