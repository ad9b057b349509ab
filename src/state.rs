use vstd::prelude::*;

use crate::bag::{draw_step, PieceBag};
use crate::board::{
    cleared, count_full, empty_grid, fits_on, lemma_fits_above_board, lemma_fits_bounds, placed, Block, Board,
};
use crate::config::{BOARD_HEIGHT, INITIAL_DROP_SPEED};
use crate::piece::{rotated, spawn_x, Tetromino};
use crate::scoring::{drop_interval, scored, Scoring};
use crate::types::{shape_of, TetrominoType};

verus! {

/// The piece's origin shifted by (`dx`, `dy`) can be written in the
/// coordinate type.
pub open spec fn movable(p: Tetromino, dx: int, dy: int) -> bool {
    &&& i32::MIN <= p.x + dx <= i32::MAX
    &&& i32::MIN <= p.y + dy <= i32::MAX
}

/// `p` stands at the spawn origin with the spawn orientation of its identity.
pub open spec fn spawned(p: Tetromino) -> bool {
    &&& p.cells() == shape_of(p.piece_type)
    &&& p.x == spawn_x()
    &&& p.y == 0
}

/// Moving `p` down row by row from its position, the rows below it down to
/// `d` rows lower are all legal and the one after is not.
pub open spec fn lands_after(g: Seq<Seq<Option<Block>>>, p: Tetromino, d: int) -> bool {
    &&& 0 <= d
    &&& forall|e: int| 1 <= e <= d ==> #[trigger] fits_on(g, p.cells(), p.x as int, p.y + e)
    &&& !fits_on(g, p.cells(), p.x as int, p.y + d + 1)
}

/// Moving `p` down row by row from where it stands, its own row and those
/// below it down to `m - 1` rows lower are legal and the `m`-th is not.
pub open spec fn first_blocked(g: Seq<Seq<Option<Block>>>, p: Tetromino, m: int) -> bool {
    &&& 0 <= m
    &&& forall|e: int| 0 <= e < m ==> #[trigger] fits_on(g, p.cells(), p.x as int, p.y + e)
    &&& !fits_on(g, p.cells(), p.x as int, p.y + m)
}

/// `p` moved down by `d` rows.
pub open spec fn lowered(p: Tetromino, d: int) -> Tetromino {
    Tetromino { y: (p.y + d) as i32, ..p }
}

/// One game: the board, the falling piece and the one after it, the score,
/// and the bag that deals the pieces.
pub struct GameState {
    pub board: Board,
    pub current_piece: Tetromino,
    pub next_piece: Tetromino,
    pub scoring: Scoring,
    pub game_over: bool,
    pub show_help: bool,
    /// Deals the pieces.
    pub piece_bag: PieceBag,
    /// Milliseconds gathered towards the next gravity step.
    pub drop_timer: u64,
}

impl GameState {
    /// The state of the bag that deals the pieces.
    pub open spec fn bag(&self) -> (Seq<TetrominoType>, nat) {
        self.piece_bag@
    }

    /// The parts are well formed, the falling piece is above the bottom row,
    /// and the gathered time is below the longest gravity interval.
    pub open spec fn wf(&self) -> bool {
        &&& self.board.wf()
        &&& self.current_piece.wf()
        &&& self.current_piece.y < BOARD_HEIGHT
        &&& (self.current_piece.y > i32::MIN || fits_on(
            self.board.rows(),
            self.current_piece.cells(),
            self.current_piece.x as int,
            self.current_piece.y as int,
        ))
        &&& self.next_piece.wf()
        &&& self.scoring.wf()
        &&& self.piece_bag.wf()
        &&& self.drop_timer < INITIAL_DROP_SPEED
    }

    /// `post` is this state once its falling piece has locked, the board,
    /// pieces, score and bag being those given. The piece's cells are written
    /// to the board. If its origin is at or above the top row the game is over
    /// and nothing else changes; otherwise full rows are cleared and scored,
    /// the next piece falls from the spawn origin, and a new next piece is
    /// drawn from the bag.
    pub open spec fn locks_into(
        g: Seq<Seq<Option<Block>>>,
        cur: Tetromino,
        next: Tetromino,
        sc: Scoring,
        bag: (Seq<TetrominoType>, nat),
        post: &GameState,
    ) -> bool {
        let filled = placed(g, cur.occupied());
        if cur.y <= 0 {
            &&& post.board.rows() == filled
            &&& post.game_over
            &&& post.current_piece == cur
            &&& post.next_piece == next
            &&& post.scoring == sc
            &&& post.bag() == bag
        } else {
            &&& post.board.rows() == cleared(filled)
            &&& !post.game_over
            &&& scored(sc, post.scoring, count_full(filled) as int)
            &&& post.current_piece.cells() == next.cells()
            &&& post.current_piece.piece_type == next.piece_type
            &&& post.current_piece.x == spawn_x()
            &&& post.current_piece.y == 0
            &&& draw_step(bag, post.bag(), post.next_piece.piece_type)
            &&& spawned(post.next_piece)
        }
    }

    /// A new game with a freshly shuffled bag.
    pub fn new() -> (r: GameState)
        ensures
            r.wf(),
            r.board.rows() == empty_grid(),
            spawned(r.current_piece),
            spawned(r.next_piece),
            r.scoring.score == 0,
            r.scoring.lines_cleared == 0,
            r.scoring.level == 1,
            !r.game_over,
            r.show_help,
            r.drop_timer == 0,
            r.bag().1 == 2,
            r.current_piece.piece_type == r.bag().0[0],
            r.next_piece.piece_type == r.bag().0[1],
            r.current_piece.piece_type != r.next_piece.piece_type,
    {
        GameState::with_piece_bag(PieceBag::new())
    }

    /// A new game whose pieces are dealt by `bag`: the first draw falls, the
    /// second waits as the next piece.
    pub fn with_piece_bag(bag: PieceBag) -> (r: GameState)
        requires
            bag.wf(),
        ensures
            r.wf(),
            r.board.rows() == empty_grid(),
            spawned(r.current_piece),
            spawned(r.next_piece),
            exists|mid: (Seq<TetrominoType>, nat)|
                draw_step(bag@, mid, r.current_piece.piece_type)
                && draw_step(mid, r.bag(), r.next_piece.piece_type),
            r.scoring.score == 0,
            r.scoring.lines_cleared == 0,
            r.scoring.level == 1,
            !r.game_over,
            r.show_help,
            r.drop_timer == 0,
            bag@.1 == 0 ==> {
                &&& r.bag() == (bag@.0, 2nat)
                &&& r.current_piece.piece_type == bag@.0[0]
                &&& r.next_piece.piece_type == bag@.0[1]
            },
    {
        let mut piece_bag = bag;
        let current_piece_type = piece_bag.next_piece();
        let ghost mid = piece_bag@;
        let next_piece_type = piece_bag.next_piece();
        GameState {
            board: Board::new(),
            current_piece: Tetromino::new(current_piece_type),
            next_piece: Tetromino::new(next_piece_type),
            scoring: Scoring::new(),
            game_over: false,
            show_help: true,
            piece_bag,
            drop_timer: 0,
        }
    }

    /// Shifts the falling piece by (`dx`, `dy`) if the board allows it there.
    /// Returns whether it moved; nothing else changes, and nothing at all
    /// once the game is over. A shift whose new origin cannot be written in
    /// the coordinate type (see `movable`) is refused as well.
    pub fn try_move(&mut self, dx: i32, dy: i32) -> (r: bool)
        requires
            old(self).wf(),
        ensures
            final(self).wf(),
            r == (!old(self).game_over && movable(old(self).current_piece, dx as int, dy as int)
                && fits_on(
                old(self).board.rows(),
                old(self).current_piece.cells(),
                old(self).current_piece.x + dx,
                old(self).current_piece.y + dy,
            )),
            r ==> *final(self) == (GameState {
                current_piece: Tetromino {
                    x: (old(self).current_piece.x + dx) as i32,
                    y: (old(self).current_piece.y + dy) as i32,
                    ..old(self).current_piece
                },
                ..*old(self)
            }),
            !r ==> *final(self) == *old(self),
    {
        if self.game_over {
            return false;
        }
        let nx: i64 = self.current_piece.x as i64 + dx as i64;
        let ny: i64 = self.current_piece.y as i64 + dy as i64;
        if nx < i32::MIN as i64 || nx > i32::MAX as i64 || ny < i32::MIN as i64 || ny > i32::MAX as i64 {
            return false;
        }
        if nx == i32::MIN as i64 || nx + 4 > i32::MAX as i64 || ny + 4 > i32::MAX as i64 {
            proof {
                let g = self.board.rows();
                let c = self.current_piece.cells();
                if fits_on(g, c, nx as int, ny as int) {
                    lemma_fits_bounds(g, c, nx as int, ny as int);
                }
            }
            return false;
        }
        let mut candidate = self.current_piece.duplicate();
        candidate.move_by(dx, dy);
        if self.board.is_valid_position(&candidate) {
            proof {
                lemma_fits_bounds(self.board.rows(), candidate.cells(), nx as int, ny as int);
            }
            self.current_piece.move_by(dx, dy);
            true
        } else {
            false
        }
    }
    /// Turns the falling piece a quarter clockwise about the same origin if
    /// the board allows the turned shape there; there is no search for another
    /// position. Returns whether it turned; nothing else changes, and nothing
    /// at all once the game is over.
    pub fn try_rotate(&mut self) -> (r: bool)
        requires
            old(self).wf(),
        ensures
            final(self).wf(),
            r == (!old(self).game_over && fits_on(
                old(self).board.rows(),
                rotated(old(self).current_piece.cells()),
                old(self).current_piece.x as int,
                old(self).current_piece.y as int,
            )),
            r ==> {
                &&& final(self).current_piece.cells() == rotated(old(self).current_piece.cells())
                &&& final(self).current_piece.piece_type == old(self).current_piece.piece_type
                &&& final(self).current_piece.x == old(self).current_piece.x
                &&& final(self).current_piece.y == old(self).current_piece.y
                &&& *final(self) == (GameState { current_piece: final(self).current_piece, ..*old(self) })
            },
            !r ==> *final(self) == *old(self),
    {
        if self.game_over {
            return false;
        }
        let mut candidate = self.current_piece.duplicate();
        candidate.rotate();
        if self.board.is_valid_position(&candidate) {
            self.current_piece = candidate;
            true
        } else {
            false
        }
    }

    /// Drops the falling piece as far as it goes and locks it there. Nothing
    /// happens once the game is over.
    pub fn hard_drop(&mut self)
        requires
            old(self).wf(),
        ensures
            final(self).wf(),
            old(self).game_over ==> *final(self) == *old(self),
            !old(self).game_over ==> exists|d: int|
                lands_after(old(self).board.rows(), old(self).current_piece, d)
                && #[trigger] GameState::locks_into(
                    old(self).board.rows(),
                    lowered(old(self).current_piece, d),
                    old(self).next_piece,
                    old(self).scoring,
                    old(self).bag(),
                    final(self),
                ),
            final(self).show_help == old(self).show_help,
            final(self).drop_timer == old(self).drop_timer,
    {
        if self.game_over {
            return;
        }
        let ghost g = self.board.rows();
        let ghost p0 = self.current_piece;
        let ghost start = *self;
        while self.try_move(0, 1)
            invariant
                self.wf(),
                !self.game_over,
                self.board.rows() == g,
                self.current_piece == lowered(p0, self.current_piece.y - p0.y),
                p0.y <= self.current_piece.y,
                forall|e: int| 1 <= e <= self.current_piece.y - p0.y ==> #[trigger] fits_on(g, p0.cells(), p0.x as int, p0.y + e),
                *self == (GameState { current_piece: self.current_piece, ..start }),
            decreases BOARD_HEIGHT - self.current_piece.y,
        {
        }
        let ghost d = self.current_piece.y - p0.y;
        assert(movable(self.current_piece, 0, 1));
        assert(lands_after(g, p0, d));
        let ghost pre = *self;
        assert(pre.next_piece == start.next_piece && pre.scoring == start.scoring && pre.bag() == start.bag());
        self.lock_piece();
        assert(GameState::locks_into(g, lowered(p0, d), start.next_piece, start.scoring, start.bag(), self));
    }

    /// Writes the falling piece to the board; ends the game if it locked at
    /// or above the top row, else clears and scores full rows and brings in
    /// the next piece.
    fn lock_piece(&mut self)
        requires
            old(self).wf(),
            !old(self).game_over,
        ensures
            final(self).wf(),
            GameState::locks_into(
                old(self).board.rows(),
                old(self).current_piece,
                old(self).next_piece,
                old(self).scoring,
                old(self).bag(),
                final(self),
            ),
            final(self).show_help == old(self).show_help,
            final(self).drop_timer == old(self).drop_timer,
    {
        let ghost g0 = self.board.rows();
        self.board.place_piece(&self.current_piece);
        if self.current_piece.y <= 0 {
            proof {
                if self.current_piece.y == i32::MIN {
                    lemma_fits_above_board(
                        g0,
                        self.board.rows(),
                        self.current_piece.cells(),
                        self.current_piece.x as int,
                        self.current_piece.y as int,
                    );
                }
            }
            self.game_over = true;
            return;
        }
        let lines_cleared = self.board.clear_lines();
        self.scoring.add_lines(lines_cleared);
        self.spawn_next_piece();
    }

    /// The next piece falls from the spawn origin and a new next piece is
    /// drawn from the bag.
    fn spawn_next_piece(&mut self)
        requires
            old(self).next_piece.wf(),
            old(self).piece_bag.wf(),
        ensures
            final(self).current_piece.cells() == old(self).next_piece.cells(),
            final(self).current_piece.piece_type == old(self).next_piece.piece_type,
            final(self).current_piece.x == spawn_x(),
            final(self).current_piece.y == 0,
            final(self).current_piece.wf(),
            draw_step(old(self).bag(), final(self).bag(), final(self).next_piece.piece_type),
            spawned(final(self).next_piece),
            final(self).next_piece.wf(),
            final(self).piece_bag.wf(),
            final(self).board == old(self).board,
            final(self).scoring == old(self).scoring,
            final(self).game_over == old(self).game_over,
            final(self).show_help == old(self).show_help,
            final(self).drop_timer == old(self).drop_timer,
    {
        self.current_piece = self.next_piece.duplicate();
        self.current_piece.reset_position();
        let next_type = self.piece_bag.next_piece();
        self.next_piece = Tetromino::new(next_type);
    }
    /// Lets `dt` milliseconds pass. Once the gathered time reaches the
    /// gravity interval of the current level, the falling piece moves down a
    /// row, or locks if it cannot, and the gathered time starts again from
    /// zero. Nothing happens once the game is over.
    pub fn update(&mut self, dt: u32)
        requires
            old(self).wf(),
        ensures
            final(self).wf(),
            old(self).game_over ==> *final(self) == *old(self),
            !old(self).game_over && old(self).drop_timer + dt < drop_interval(old(self).scoring.level as int)
                ==> *final(self) == (GameState { drop_timer: (old(self).drop_timer + dt) as u64, ..*old(self) }),
            !old(self).game_over && old(self).drop_timer + dt >= drop_interval(old(self).scoring.level as int)
                ==> {
                &&& final(self).drop_timer == 0
                &&& final(self).show_help == old(self).show_help
                &&& if fits_on(
                    old(self).board.rows(),
                    old(self).current_piece.cells(),
                    old(self).current_piece.x as int,
                    old(self).current_piece.y + 1,
                ) {
                    *final(self) == (GameState {
                        current_piece: lowered(old(self).current_piece, 1),
                        drop_timer: 0,
                        ..*old(self)
                    })
                } else {
                    GameState::locks_into(
                        old(self).board.rows(),
                        old(self).current_piece,
                        old(self).next_piece,
                        old(self).scoring,
                        old(self).bag(),
                        final(self),
                    )
                }
            },
    {
        if self.game_over {
            return;
        }
        let total: u64 = self.drop_timer + dt as u64;
        let drop_speed = self.scoring.get_drop_speed();
        if total >= drop_speed as u64 {
            if !self.try_move(0, 1) {
                self.lock_piece();
            }
            self.drop_timer = 0;
        } else {
            self.drop_timer = total;
        }
    }

    /// Where the falling piece would land: a copy moved down while the board
    /// allows it, then back up one row.
    pub fn get_ghost_piece(&self) -> (r: Tetromino)
        requires
            self.wf(),
        ensures
            r.cells() == self.current_piece.cells(),
            r.piece_type == self.current_piece.piece_type,
            r.x == self.current_piece.x,
            r.y < BOARD_HEIGHT,
            r.wf(),
            exists|m: int|
                #[trigger] first_blocked(self.board.rows(), self.current_piece, m)
                && r.y == self.current_piece.y + m - 1,
    {
        let mut shadow = self.current_piece.duplicate();
        let ghost y0 = self.current_piece.y as int;
        while self.board.is_valid_position(&shadow)
            invariant
                self.wf(),
                shadow.wf(),
                shadow.cells() == self.current_piece.cells(),
                shadow.piece_type == self.current_piece.piece_type,
                shadow.x == self.current_piece.x,
                y0 == self.current_piece.y,
                y0 <= shadow.y <= BOARD_HEIGHT,
                forall|e: int| 0 <= e < shadow.y - y0 ==> #[trigger] fits_on(
                    self.board.rows(),
                    shadow.cells(),
                    shadow.x as int,
                    y0 + e,
                ),
            decreases BOARD_HEIGHT - shadow.y,
        {
            proof {
                lemma_fits_bounds(self.board.rows(), shadow.cells(), shadow.x as int, shadow.y as int);
            }
            shadow.y = shadow.y + 1;
        }
        assert(first_blocked(self.board.rows(), self.current_piece, shadow.y - y0));
        shadow.y = shadow.y - 1;
        shadow
    }

    /// Shows the help overlay if hidden, hides it if shown.
    pub fn toggle_help(&mut self)
        ensures
            *final(self) == (GameState { show_help: !old(self).show_help, ..*old(self) }),
    {
        self.show_help = !self.show_help;
    }

    /// Hides the help overlay.
    pub fn hide_help(&mut self)
        ensures
            *final(self) == (GameState { show_help: false, ..*old(self) }),
    {
        self.show_help = false;
    }

    /// Discards the game and starts a new one with a freshly shuffled bag.
    pub fn reset(&mut self)
        ensures
            final(self).wf(),
            final(self).board.rows() == empty_grid(),
            spawned(final(self).current_piece),
            spawned(final(self).next_piece),
            final(self).scoring.score == 0,
            final(self).scoring.lines_cleared == 0,
            final(self).scoring.level == 1,
            !final(self).game_over,
            final(self).show_help,
            final(self).drop_timer == 0,
            final(self).bag().1 == 2,
            final(self).current_piece.piece_type == final(self).bag().0[0],
            final(self).next_piece.piece_type == final(self).bag().0[1],
    {
        *self = GameState::new();
    }
}


impl Default for GameState {
    fn default() -> (r: GameState)
        ensures
            r.wf(),
            r.board.rows() == empty_grid(),
            spawned(r.current_piece),
            spawned(r.next_piece),
            r.scoring.score == 0,
            r.scoring.lines_cleared == 0,
            r.scoring.level == 1,
            !r.game_over,
            r.show_help,
            r.drop_timer == 0,
            r.bag().1 == 2,
            r.current_piece.piece_type == r.bag().0[0],
            r.next_piece.piece_type == r.bag().0[1],
    {
        GameState::new()
    }
}

} // verus!
