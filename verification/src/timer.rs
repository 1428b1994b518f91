//! A repeating countdown measured in whole milliseconds. It gates the
//! discrete movement ticks of the simulation: the host hands each component
//! a time delta, the countdown consumes deltas until it has elapsed, and the
//! component then performs one discrete step and resets the countdown.

use vstd::prelude::*;

verus! {

/// A countdown over `duration_ms` milliseconds. `ready` becomes true once
/// the accumulated deltas reach the duration and stays true until `reset`.
#[derive(Clone, Copy, PartialEq, Eq, Structural, Debug)]
pub struct Timer {
    pub duration_ms: u64,
    pub time_left_ms: u64,
    pub ready: bool,
}

impl Timer {
    /// The freshly started countdown over `ms` milliseconds.
    pub open spec fn spec_from_millis(ms: u64) -> Timer {
        Timer { duration_ms: ms, time_left_ms: ms, ready: false }
    }

    /// The countdown after consuming a delta of `delta_ms`: once ready it no
    /// longer changes; otherwise the remaining time shrinks, bottoming out at
    /// zero, at which point the countdown becomes ready.
    pub open spec fn spec_update(self, delta_ms: u64) -> Timer {
        if self.ready {
            self
        } else if delta_ms >= self.time_left_ms {
            Timer { duration_ms: self.duration_ms, time_left_ms: 0, ready: true }
        } else {
            Timer {
                duration_ms: self.duration_ms,
                time_left_ms: (self.time_left_ms - delta_ms) as u64,
                ready: false,
            }
        }
    }

    pub fn from_millis(ms: u64) -> (t: Timer)
        ensures
            t == Timer::spec_from_millis(ms),
    {
        Timer { duration_ms: ms, time_left_ms: ms, ready: false }
    }

    pub fn update(&mut self, delta_ms: u64)
        ensures
            *final(self) == old(self).spec_update(delta_ms),
    {
        if !self.ready {
            if delta_ms >= self.time_left_ms {
                self.time_left_ms = 0;
                self.ready = true;
            } else {
                self.time_left_ms = self.time_left_ms - delta_ms;
            }
        }
    }

    pub fn reset(&mut self)
        ensures
            *final(self) == Timer::spec_from_millis(old(self).duration_ms),
    {
        self.ready = false;
        self.time_left_ms = self.duration_ms;
    }

    /// True while more than half of the countdown remains; rendering uses
    /// this to toggle between two glyph states as the countdown runs down.
    pub fn is_fresh(&self) -> (fresh: bool)
        ensures
            fresh == (2 * (self.time_left_ms as int) > self.duration_ms as int),
    {
        self.time_left_ms > self.duration_ms / 2
    }
}

} // verus!
