use vstd::prelude::*;
use crate::NUM_COLS;
use crate::NUM_ROWS;

verus! {

/// Milliseconds between two upward moves of a projectile.
pub const SHOT_PERIOD_MS: u64 = 50;

/// One projectile in flight: a grid position, an exploding flag set when the
/// projectile has hit something, and the time accumulated toward its next move.
#[derive(Clone, Copy, Debug, PartialEq, Eq, Structural)]
pub struct Shot {
    pub x: usize,
    pub y: usize,
    pub exploding: bool,
    pub timer_ms: u64,
}

/// A projectile's position is on the grid and its timer has not yet reached
/// the move period.
pub open spec fn shot_wf(s: Shot) -> bool {
    &&& s.x < NUM_COLS
    &&& s.y < NUM_ROWS
    &&& s.timer_ms < SHOT_PERIOD_MS
}

/// A spent projectile: it exploded, or it reached the top row, past which it
/// would leave the grid.
pub open spec fn shot_dead(s: Shot) -> bool {
    s.exploding || s.y == 0
}

/// What one time update of `delta_ms` does to a projectile: an exploding one
/// is inert; otherwise the timer accumulates, and each time it fills the move
/// period the projectile climbs one row.
pub open spec fn shot_step(s: Shot, delta_ms: u64) -> Shot {
    if s.exploding {
        s
    } else if delta_ms < SHOT_PERIOD_MS - s.timer_ms {
        Shot { timer_ms: (s.timer_ms + delta_ms) as u64, ..s }
    } else if s.y > 0 {
        Shot { y: (s.y - 1) as usize, timer_ms: 0, ..s }
    } else {
        Shot { timer_ms: 0, ..s }
    }
}

impl Shot {
    /// A fresh projectile at `(x, y)`.
    pub fn new(x: usize, y: usize) -> (s: Shot)
        ensures
            s.x == x && s.y == y && !s.exploding && s.timer_ms == 0,
    {
        Shot { x, y, exploding: false, timer_ms: 0 }
    }

    /// Advance this projectile by `delta_ms` of elapsed time.
    pub fn update(&mut self, delta_ms: u64)
        requires
            shot_wf(*old(self)),
        ensures
            *final(self) == shot_step(*old(self), delta_ms),
            shot_wf(*final(self)),
    {
        if self.exploding {
            return ;
        }
        if delta_ms < SHOT_PERIOD_MS - self.timer_ms {
            self.timer_ms = self.timer_ms + delta_ms;
        } else {
            if self.y > 0 {
                self.y = self.y - 1;
            }
            self.timer_ms = 0;
        }
    }

    /// Mark this projectile as having hit something.
    pub fn explode(&mut self)
        ensures
            final(self).x == old(self).x,
            final(self).y == old(self).y,
            final(self).exploding,
            final(self).timer_ms == old(self).timer_ms,
    {
        self.exploding = true;
    }

    /// Whether this projectile is spent and should be removed.
    pub fn dead(&self) -> (r: bool)
        ensures
            r == shot_dead(*self),
    {
        self.exploding || self.y == 0
    }
}

} // verus!
