//! The player unit: a laterally moving cannon that owns the active
//! projectiles, caps how many are in flight at once, and resolves
//! projectile/invader collisions once per tick.

use vstd::prelude::*;

use crate::invaders::Invader;
use crate::invaders::Invaders;
use crate::shot::Shot;
use crate::timer::Timer;
use crate::NUM_COLS;
use crate::NUM_ROWS;

verus! {

/// Cap on simultaneously active projectiles.
pub const MAX_SHOTS: usize = 2;

pub struct Player {
    pub x: usize,
    pub y: usize,
    pub shots: Vec<Shot>,
}

impl Player {
    /// Well-formedness: the player sits on the grid above the bottom
    /// boundary of fire, and at most `MAX_SHOTS` projectiles are active,
    /// all of them on the grid.
    pub open spec fn wf(&self) -> bool {
        &&& self.x < NUM_COLS
        &&& 0 < self.y < NUM_ROWS
        &&& self.shots@.len() <= MAX_SHOTS
        &&& forall|k: int| 0 <= k < self.shots@.len() ==> (#[trigger] self.shots@[k]).wf()
    }

    /// Index of the first non-exploding projectile among indices `i` and up
    /// that sits on a live invader, or -1 if there is none.
    pub open spec fn hit_from(shots: Seq<Shot>, army: Seq<Invader>, i: int) -> int
        decreases shots.len() - i,
    {
        if i < 0 || i >= shots.len() {
            -1
        } else if !shots[i].exploding && Invaders::spec_find_invader(
            army,
            shots[i].x,
            shots[i].y,
        ) >= 0 {
            i
        } else {
            Self::hit_from(shots, army, i + 1)
        }
    }

    /// Index of the first non-exploding projectile sitting on a live
    /// invader, or -1 if there is none.
    pub open spec fn spec_first_hit(shots: Seq<Shot>, army: Seq<Invader>) -> int {
        Self::hit_from(shots, army, 0)
    }

    /// The fresh player: centered horizontally on the bottom row, with no
    /// active projectiles.
    pub fn new() -> (player: Player)
        ensures
            player.x == NUM_COLS / 2,
            player.y == NUM_ROWS - 1,
            player.shots@.len() == 0,
            player.wf(),
    {
        Player { x: NUM_COLS / 2, y: NUM_ROWS - 1, shots: Vec::new() }
    }

    /// Moves one column left, clamping at the left boundary.
    pub fn move_left(&mut self)
        requires
            old(self).wf(),
        ensures
            final(self).x == (if old(self).x > 0 {
                (old(self).x - 1) as usize
            } else {
                old(self).x
            }),
            final(self).y == old(self).y,
            final(self).shots@ == old(self).shots@,
            final(self).wf(),
    {
        if self.x > 0 {
            self.x = self.x - 1;
        }
    }

    /// Moves one column right, clamping at the right boundary.
    pub fn move_right(&mut self)
        requires
            old(self).wf(),
        ensures
            final(self).x == (if old(self).x < NUM_COLS - 1 {
                (old(self).x + 1) as usize
            } else {
                old(self).x
            }),
            final(self).y == old(self).y,
            final(self).shots@ == old(self).shots@,
            final(self).wf(),
    {
        if self.x < NUM_COLS - 1 {
            self.x = self.x + 1;
        }
    }

    /// Fires a projectile one row above the player, unless the cap on
    /// active projectiles is already reached; reports whether a projectile
    /// was created. The active count therefore never exceeds `MAX_SHOTS`.
    pub fn shoot(&mut self) -> (fired: bool)
        requires
            old(self).wf(),
        ensures
            fired == (old(self).shots@.len() < MAX_SHOTS),
            fired ==> final(self).shots@ == old(self).shots@.push(
                Shot {
                    x: old(self).x,
                    y: (old(self).y - 1) as usize,
                    exploding: false,
                    timer: Timer::spec_from_millis(crate::shot::SHOT_TRAVEL_MS),
                },
            ),
            !fired ==> final(self).shots@ == old(self).shots@,
            final(self).x == old(self).x,
            final(self).y == old(self).y,
            final(self).shots@.len() <= MAX_SHOTS,
            final(self).wf(),
    {
        if self.shots.len() < MAX_SHOTS {
            let shot = Shot::new(self.x, self.y - 1);
            self.shots.push(shot);
            true
        } else {
            false
        }
    }

    /// Advances every projectile by the delta, then purges the ones whose
    /// lifecycle has ended, keeping the survivors in their original order.
    /// The active count never grows during a tick.
    pub fn update(&mut self, delta_ms: u64)
        requires
            old(self).wf(),
        ensures
            final(self).x == old(self).x,
            final(self).y == old(self).y,
            final(self).shots@ == old(self).shots@.map_values(
                |shot: Shot| shot.spec_update(delta_ms),
            ).filter(|shot: Shot| !shot.spec_dead()),
            final(self).shots@.len() <= old(self).shots@.len(),
            final(self).wf(),
    {
        let ghost advanced = old(self).shots@.map_values(
            |shot: Shot| shot.spec_update(delta_ms),
        );
        let mut survivors: Vec<Shot> = Vec::new();
        let n = self.shots.len();
        for idx in 0..n
            invariant
                n == self.shots.len(),
                self.shots@ == old(self).shots@,
                self.x == old(self).x,
                self.y == old(self).y,
                old(self).wf(),
                advanced == old(self).shots@.map_values(
                    |shot: Shot| shot.spec_update(delta_ms),
                ),
                survivors@ == advanced.take(idx as int).filter(
                    |shot: Shot| !shot.spec_dead(),
                ),
                survivors@.len() <= idx,
                forall|k: int|
                    0 <= k < survivors@.len() ==> (#[trigger] survivors@[k]).wf(),
        {
            let mut shot = self.shots[idx];
            shot.update(delta_ms);
            proof {
                advanced.lemma_take_succ_push(idx as int);
                advanced.take(idx as int).lemma_filter_push(
                    advanced[idx as int],
                    |shot: Shot| !shot.spec_dead(),
                );
                assert(advanced[idx as int] == shot);
                assert(shot.wf()) by {
                    assert(old(self).shots@[idx as int].wf());
                }
            }
            if !shot.dead() {
                survivors.push(shot);
            }
        }
        proof {
            assert(advanced.take(n as int) =~= advanced);
            advanced.take(n as int).lemma_filter_len(|shot: Shot| !shot.spec_dead());
        }
        self.shots = survivors;
    }

    /// Resolves collisions for this tick: scans the active (non-exploding)
    /// projectiles in storage order, and on the first one that sits on a
    /// live invader, removes that invader and switches the projectile into
    /// its exploding sub-state, then stops. At most one invader is removed
    /// per call, and exploding projectiles never score again.
    pub fn detect_hits(&mut self, invaders: &mut Invaders) -> (hit: bool)
        ensures
            hit == (Self::spec_first_hit(old(self).shots@, old(invaders).army@) >= 0),
            final(self).x == old(self).x,
            final(self).y == old(self).y,
            final(invaders).move_timer == old(invaders).move_timer,
            final(invaders).direction == old(invaders).direction,
            !hit ==> {
                &&& final(self).shots@ == old(self).shots@
                &&& final(invaders).army@ == old(invaders).army@
            },
            hit ==> ({
                let i = Self::spec_first_hit(old(self).shots@, old(invaders).army@);
                let j = Invaders::spec_find_invader(
                    old(invaders).army@,
                    old(self).shots@[i].x,
                    old(self).shots@[i].y,
                );
                &&& final(invaders).army@ == old(invaders).army@.remove(j)
                &&& final(self).shots@ == old(self).shots@.update(
                    i,
                    old(self).shots@[i].spec_explode(),
                )
            }),
            old(invaders).army@.len() <= final(invaders).army@.len() + 1,
            old(self).wf() ==> final(self).wf(),
            old(invaders).wf() ==> final(invaders).wf(),
    {
        let n = self.shots.len();
        for idx in 0..n
            invariant
                n == self.shots.len(),
                self.shots@ == old(self).shots@,
                self.x == old(self).x,
                self.y == old(self).y,
                invaders.army@ == old(invaders).army@,
                invaders.move_timer == old(invaders).move_timer,
                invaders.direction == old(invaders).direction,
                old(invaders).wf() ==> invaders.wf(),
                Self::hit_from(old(self).shots@, old(invaders).army@, 0)
                    == Self::hit_from(old(self).shots@, old(invaders).army@, idx as int),
        {
            let shot = self.shots[idx];
            if !shot.exploding {
                if invaders.kill_invader_at(shot.x, shot.y) {
                    proof {
                        assert(Self::hit_from(
                            old(self).shots@,
                            old(invaders).army@,
                            idx as int,
                        ) == idx);
                    }
                    let mut exploded = shot;
                    exploded.explode();
                    self.shots.set(idx, exploded);
                    proof {
                        if old(self).wf() {
                            assert forall|k: int|
                                0 <= k < self.shots@.len() implies (#[trigger] self.shots@[k]).wf()
                                by {
                                if k != idx {
                                    assert(self.shots@[k] == old(self).shots@[k]);
                                } else {
                                    assert(old(self).shots@[k].wf());
                                }
                            }
                        }
                    }
                    return true;
                }
            }
            proof {
                assert(Self::hit_from(old(self).shots@, old(invaders).army@, idx as int)
                    == Self::hit_from(
                    old(self).shots@,
                    old(invaders).army@,
                    idx as int + 1,
                ));
            }
        }
        false
    }
}

} // verus!
