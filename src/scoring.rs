use vstd::prelude::*;

use crate::config::{
    INITIAL_DROP_SPEED, LINES_PER_LEVEL, MIN_DROP_SPEED, SCORE_DOUBLE, SCORE_SINGLE, SCORE_TETRIS,
    SCORE_TRIPLE, SPEED_INCREASE_PER_LEVEL,
};

verus! {

/// Base award for clearing `n` lines at once; nothing for other counts.
pub open spec fn line_award(n: int) -> int {
    if n == 1 {
        SCORE_SINGLE as int
    } else if n == 2 {
        SCORE_DOUBLE as int
    } else if n == 3 {
        SCORE_TRIPLE as int
    } else if n == 4 {
        SCORE_TETRIS as int
    } else {
        0
    }
}

/// The level reached after `lines` cleared lines.
pub open spec fn level_for(lines: int) -> int {
    lines / LINES_PER_LEVEL as int + 1
}

/// A counter value, held at the largest value a counter can take.
pub open spec fn capped(v: int) -> int {
    if v > u32::MAX {
        u32::MAX as int
    } else {
        v
    }
}

/// Milliseconds between gravity steps at `level`: shorter by a fixed step per
/// level, but never below the minimum.
pub open spec fn drop_interval(level: int) -> int {
    let v = INITIAL_DROP_SPEED - (level - 1) * SPEED_INCREASE_PER_LEVEL;
    if v < MIN_DROP_SPEED {
        MIN_DROP_SPEED as int
    } else {
        v
    }
}

/// The gravity interval never grows as the level goes up.
pub proof fn lemma_drop_interval_monotone(a: int, b: int)
    requires
        1 <= a <= b,
    ensures
        drop_interval(b) <= drop_interval(a),
{
    assert((b - 1) * SPEED_INCREASE_PER_LEVEL >= (a - 1) * SPEED_INCREASE_PER_LEVEL) by (nonlinear_arith)
        requires
            a <= b,
    ;
}

/// `post` is `pre` after `n` lines were cleared at once.
pub open spec fn scored(pre: Scoring, post: Scoring, n: int) -> bool {
    &&& post.lines_cleared == capped(pre.lines_cleared + n)
    &&& post.score == capped(pre.score + line_award(n) * pre.level)
    &&& post.level == level_for(post.lines_cleared as int)
}

/// Score, cleared lines and level of one game.
pub struct Scoring {
    pub score: u32,
    pub lines_cleared: u32,
    pub level: u32,
}

impl Scoring {
    /// The level is the one the cleared lines give.
    pub open spec fn wf(&self) -> bool {
        self.level == level_for(self.lines_cleared as int)
    }

    /// No score, no lines, level 1.
    pub fn new() -> (r: Scoring)
        ensures
            r.score == 0,
            r.lines_cleared == 0,
            r.level == 1,
            r.wf(),
    {
        Scoring { score: 0, lines_cleared: 0, level: 1 }
    }

    /// Records `lines` lines cleared at once: adds their base award times the
    /// current level to the score, adds them to the cleared lines, and
    /// recomputes the level from those. Both counters stop at their largest
    /// value rather than wrap.
    pub fn add_lines(&mut self, lines: u32)
        ensures
            final(self).lines_cleared == capped(old(self).lines_cleared + lines),
            final(self).score == capped(old(self).score + line_award(lines as int) * old(self).level),
            final(self).level == level_for(final(self).lines_cleared as int),
            scored(*old(self), *final(self), lines as int),
            final(self).wf(),
    {
        self.lines_cleared = self.lines_cleared.saturating_add(lines);
        let line_score: u32 = match lines {
            1 => SCORE_SINGLE,
            2 => SCORE_DOUBLE,
            3 => SCORE_TRIPLE,
            4 => SCORE_TETRIS,
            _ => 0,
        };
        assert(line_score as int * self.level as int <= 1200 * u32::MAX) by (nonlinear_arith)
            requires
                line_score <= 1200,
                self.level <= u32::MAX,
        ;
        let total: u64 = self.score as u64 + line_score as u64 * self.level as u64;
        self.score = if total > u32::MAX as u64 {
            u32::MAX
        } else {
            total as u32
        };
        self.update_level();
    }

    /// Sets the level from the cleared lines.
    fn update_level(&mut self)
        ensures
            final(self).level == level_for(old(self).lines_cleared as int),
            final(self).lines_cleared == old(self).lines_cleared,
            final(self).score == old(self).score,
    {
        let new_level = self.lines_cleared / LINES_PER_LEVEL + 1;
        if new_level != self.level {
            self.level = new_level;
        }
    }

    /// Milliseconds between gravity steps at the current level.
    pub fn get_drop_speed(&self) -> (r: u32)
        requires
            self.level >= 1,
        ensures
            r == drop_interval(self.level as int),
    {
        let steps: u32 = self.level - 1;
        if steps >= (INITIAL_DROP_SPEED - MIN_DROP_SPEED) / SPEED_INCREASE_PER_LEVEL {
            assert(drop_interval(self.level as int) == MIN_DROP_SPEED) by (nonlinear_arith)
                requires
                    steps >= 10,
                    steps == self.level - 1,
            ;
            MIN_DROP_SPEED
        } else {
            INITIAL_DROP_SPEED - steps * SPEED_INCREASE_PER_LEVEL
        }
    }

    /// Back to no score, no lines, level 1.
    pub fn reset(&mut self)
        ensures
            final(self).score == 0,
            final(self).lines_cleared == 0,
            final(self).level == 1,
            final(self).wf(),
    {
        self.score = 0;
        self.lines_cleared = 0;
        self.level = 1;
    }
}


impl Default for Scoring {
    fn default() -> (r: Scoring)
        ensures
            r.score == 0,
            r.lines_cleared == 0,
            r.level == 1,
            r.wf(),
    {
        Scoring::new()
    }
}

} // verus!
