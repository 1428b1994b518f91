//! A player projectile. It travels upward one row per travel countdown,
//! switches to a brief inert "exploding" sub-state when a collision is
//! resolved against it, and counts as dead once the explosion countdown has
//! elapsed or — if it never exploded — once it reaches the top of the grid.

use vstd::prelude::*;

use crate::timer::Timer;
use crate::NUM_COLS;
use crate::NUM_ROWS;

verus! {

/// Milliseconds between upward travel steps.
pub const SHOT_TRAVEL_MS: u64 = 50;

/// Milliseconds an exploded projectile lingers before removal.
pub const SHOT_EXPLOSION_MS: u64 = 250;

#[derive(Clone, Copy, PartialEq, Eq, Structural, Debug)]
pub struct Shot {
    pub x: usize,
    pub y: usize,
    pub exploding: bool,
    pub timer: Timer,
}

impl Shot {
    /// The projectile lies on the grid.
    pub open spec fn wf(self) -> bool {
        self.x < NUM_COLS && self.y < NUM_ROWS
    }

    /// A projectile is dead once its explosion countdown has elapsed, or
    /// once it sits on the top row without ever having exploded there.
    pub open spec fn spec_dead(self) -> bool {
        (self.exploding && self.timer.ready) || self.y == 0
    }

    /// The projectile after consuming a delta: the countdown advances, and
    /// when it elapses on a travelling (non-exploding) projectile, the
    /// projectile moves up one row and the countdown restarts.
    pub open spec fn spec_update(self, delta_ms: u64) -> Shot {
        let t = self.timer.spec_update(delta_ms);
        if t.ready && !self.exploding {
            Shot {
                x: self.x,
                y: if self.y > 0 { (self.y - 1) as usize } else { 0 },
                exploding: self.exploding,
                timer: Timer::spec_from_millis(t.duration_ms),
            }
        } else {
            Shot { x: self.x, y: self.y, exploding: self.exploding, timer: t }
        }
    }

    /// The projectile right after a hit: inert, with the explosion countdown
    /// freshly started.
    pub open spec fn spec_explode(self) -> Shot {
        Shot {
            x: self.x,
            y: self.y,
            exploding: true,
            timer: Timer::spec_from_millis(SHOT_EXPLOSION_MS),
        }
    }

    pub fn new(x: usize, y: usize) -> (shot: Shot)
        ensures
            shot == (Shot {
                x,
                y,
                exploding: false,
                timer: Timer::spec_from_millis(SHOT_TRAVEL_MS),
            }),
    {
        Shot { x, y, exploding: false, timer: Timer::from_millis(SHOT_TRAVEL_MS) }
    }

    pub fn update(&mut self, delta_ms: u64)
        ensures
            *final(self) == old(self).spec_update(delta_ms),
    {
        self.timer.update(delta_ms);
        if self.timer.ready && !self.exploding {
            if self.y > 0 {
                self.y = self.y - 1;
            }
            self.timer.reset();
        }
    }

    pub fn explode(&mut self)
        ensures
            *final(self) == old(self).spec_explode(),
    {
        self.exploding = true;
        self.timer = Timer::from_millis(SHOT_EXPLOSION_MS);
    }

    pub fn dead(&self) -> (dead: bool)
        ensures
            dead == self.spec_dead(),
    {
        (self.exploding && self.timer.ready) || self.y == 0
    }
}

} // verus!
