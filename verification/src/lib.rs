//! Core simulation logic for a fixed-grid shoot-'em-up: a formation of
//! invaders sweeps across and down a bounded grid while the player fires
//! projectiles at it. The crate covers the formation's movement/direction
//! state machine and speed ramp, the projectile lifecycle, and the
//! collision/removal protocol; rendering and input are left to callers.

use vstd::prelude::*;

pub mod invaders;
pub mod player;
pub mod shot;
pub mod timer;

verus! {

/// Number of grid columns; valid x coordinates are `0 .. NUM_COLS - 1`.
pub const NUM_COLS: usize = 20;

/// Number of grid rows; valid y coordinates are `0 .. NUM_ROWS - 1`.
pub const NUM_ROWS: usize = 10;

} // verus!
