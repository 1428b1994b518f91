//! The invader formation: a set of grid positions sweeping laterally across
//! the grid, descending one row and reversing direction whenever the extremal
//! unit reaches a horizontal boundary, and speeding up on every descent.

use vstd::prelude::*;

use crate::timer::Timer;
use crate::NUM_COLS;
use crate::NUM_ROWS;

verus! {

/// Initial milliseconds between formation moves.
pub const INITIAL_MOVE_MS: u64 = 2000;

/// Milliseconds shaved off the move countdown on each descent.
pub const MOVE_RAMP_MS: u64 = 250;

/// The move countdown never drops below this duration.
pub const MIN_MOVE_MS: u64 = 250;

/// The formation's current lateral sweep direction.
#[derive(Clone, Copy, PartialEq, Eq, Structural, Debug)]
pub enum Direction {
    Left,
    Right,
}

/// One invader unit; its grid position is its only state.
#[derive(Clone, Copy, PartialEq, Eq, Structural, Debug)]
pub struct Invader {
    pub x: usize,
    pub y: usize,
}

/// The formation: the live units, the sweep direction, and the countdown
/// gating movement ticks.
pub struct Invaders {
    pub army: Vec<Invader>,
    pub move_timer: Timer,
    pub direction: Direction,
}

/// The sweep direction after a reversal.
pub open spec fn opposite(dir: Direction) -> Direction {
    match dir {
        Direction::Left => Direction::Right,
        Direction::Right => Direction::Left,
    }
}

/// Positions the initial formation populates: strictly inside a two-column
/// horizontal margin, in rows 1 through 8, with both coordinates even.
pub open spec fn spec_valid_position(x: int, y: int) -> bool {
    &&& 1 < x < NUM_COLS - 2
    &&& 0 < y < 9
    &&& x % 2 == 0
    &&& y % 2 == 0
}

/// The valid positions in column `x` with row below `y`, in increasing row
/// order: the units the initialization scan of column `x` has produced after
/// examining rows `0 .. y`.
pub open spec fn column_block(x: int, y: int) -> Seq<Invader>
    decreases y,
{
    if y <= 0 {
        Seq::empty()
    } else {
        column_block(x, y - 1) + if spec_valid_position(x, y - 1) {
            seq![Invader { x: x as usize, y: (y - 1) as usize }]
        } else {
            Seq::empty()
        }
    }
}

/// The units the initialization scan has produced after examining columns
/// `0 .. x` in full (each column scanned over all rows).
pub open spec fn army_prefix(x: int) -> Seq<Invader>
    decreases x,
{
    if x <= 0 {
        Seq::empty()
    } else {
        army_prefix(x - 1) + column_block(x - 1, NUM_ROWS as int)
    }
}

/// The full initial formation, a fixed lattice determined by the grid
/// dimensions alone.
pub open spec fn initial_army() -> Seq<Invader> {
    army_prefix(NUM_COLS as int)
}

/// Maximum x coordinate among the units, 0 for an empty sequence.
pub open spec fn spec_max_x(s: Seq<Invader>) -> int
    decreases s.len(),
{
    if s.len() == 0 {
        0
    } else {
        let m = spec_max_x(s.drop_last());
        if s.last().x > m {
            s.last().x as int
        } else {
            m
        }
    }
}

/// Minimum x coordinate among the units, 0 for an empty sequence.
pub open spec fn spec_min_x(s: Seq<Invader>) -> int
    decreases s.len(),
{
    if s.len() == 0 {
        0
    } else if s.len() == 1 {
        s[0].x as int
    } else {
        let m = spec_min_x(s.drop_last());
        if s.last().x < m {
            s.last().x as int
        } else {
            m
        }
    }
}

/// Maximum y coordinate among the units, 0 for an empty sequence.
pub open spec fn spec_max_y(s: Seq<Invader>) -> int
    decreases s.len(),
{
    if s.len() == 0 {
        0
    } else {
        let m = spec_max_y(s.drop_last());
        if s.last().y > m {
            s.last().y as int
        } else {
            m
        }
    }
}

/// Every unit's x coordinate is at most the maximum.
proof fn lemma_max_x_ge_all(s: Seq<Invader>)
    ensures
        forall|k: int| 0 <= k < s.len() ==> (#[trigger] s[k]).x <= spec_max_x(s),
    decreases s.len(),
{
    if s.len() > 0 {
        lemma_max_x_ge_all(s.drop_last());
        assert forall|k: int| 0 <= k < s.len() implies (#[trigger] s[k]).x <= spec_max_x(s) by {
            if k < s.len() - 1 {
                assert(s[k] == s.drop_last()[k]);
            } else {
                assert(s[k] == s.last());
            }
        }
    }
}

/// A bound on every unit's x coordinate bounds the maximum.
proof fn lemma_max_x_le(s: Seq<Invader>, b: int)
    requires
        0 <= b,
        forall|k: int| 0 <= k < s.len() ==> (#[trigger] s[k]).x <= b,
    ensures
        spec_max_x(s) <= b,
    decreases s.len(),
{
    if s.len() > 0 {
        assert(forall|k: int|
            0 <= k < s.len() - 1 ==> (#[trigger] s.drop_last()[k]) == s[k]);
        lemma_max_x_le(s.drop_last(), b);
    }
}

/// In a nonempty formation the minimum x coordinate bounds every unit's.
proof fn lemma_min_x_le_all(s: Seq<Invader>)
    requires
        s.len() > 0,
    ensures
        forall|k: int| 0 <= k < s.len() ==> spec_min_x(s) <= (#[trigger] s[k]).x,
    decreases s.len(),
{
    if s.len() > 1 {
        lemma_min_x_le_all(s.drop_last());
        assert forall|k: int| 0 <= k < s.len() implies spec_min_x(s) <= (#[trigger] s[k]).x by {
            if k < s.len() - 1 {
                assert(s[k] == s.drop_last()[k]);
            } else {
                assert(s[k] == s.last());
            }
        }
    }
}

/// The minimum x coordinate is never negative.
proof fn lemma_min_x_nonneg(s: Seq<Invader>)
    ensures
        spec_min_x(s) >= 0,
    decreases s.len(),
{
    if s.len() > 1 {
        lemma_min_x_nonneg(s.drop_last());
    }
}

/// Every unit's y coordinate is at most the maximum.
proof fn lemma_max_y_ge_all(s: Seq<Invader>)
    ensures
        forall|k: int| 0 <= k < s.len() ==> (#[trigger] s[k]).y <= spec_max_y(s),
    decreases s.len(),
{
    if s.len() > 0 {
        lemma_max_y_ge_all(s.drop_last());
        assert forall|k: int| 0 <= k < s.len() implies (#[trigger] s[k]).y <= spec_max_y(s) by {
            if k < s.len() - 1 {
                assert(s[k] == s.drop_last()[k]);
            } else {
                assert(s[k] == s.last());
            }
        }
    }
}

impl Invaders {
    /// The unit lies on the grid.
    pub open spec fn unit_in_grid(inv: Invader) -> bool {
        inv.x < NUM_COLS && inv.y < NUM_ROWS
    }

    /// Well-formedness: every unit lies on the grid and the move countdown
    /// never runs faster than the floor.
    pub open spec fn wf(&self) -> bool {
        &&& forall|k: int|
            0 <= k < self.army@.len() ==> Self::unit_in_grid(#[trigger] self.army@[k])
        &&& self.move_timer.duration_ms >= MIN_MOVE_MS
    }

    /// Whether an elapsed countdown forces a descent: the extremal unit in
    /// the sweep direction sits on the horizontal boundary. An empty
    /// formation yields synthetic extrema of 0, so it descends only when
    /// sweeping left (the left boundary is column 0).
    pub open spec fn spec_descent(&self) -> bool {
        match self.direction {
            Direction::Left => spec_min_x(self.army@) == 0,
            Direction::Right => spec_max_x(self.army@) == NUM_COLS - 1,
        }
    }

    pub open spec fn spec_all_killed(&self) -> bool {
        self.army@.len() == 0
    }

    pub open spec fn spec_reached_bottom(&self) -> bool {
        spec_max_y(self.army@) >= NUM_ROWS - 1
    }

    /// The move countdown duration after one speed ramp: shortened by
    /// `MOVE_RAMP_MS`, floored at `MIN_MOVE_MS`.
    pub open spec fn spec_ramped(duration_ms: u64) -> u64 {
        if duration_ms >= MIN_MOVE_MS + MOVE_RAMP_MS {
            (duration_ms - MOVE_RAMP_MS) as u64
        } else {
            MIN_MOVE_MS
        }
    }

    /// The whole formation shifted one row down.
    pub open spec fn spec_shift_down(s: Seq<Invader>) -> Seq<Invader> {
        s.map_values(|inv: Invader| (Invader { x: inv.x, y: (inv.y + 1) as usize }))
    }

    /// The whole formation shifted one column in the sweep direction.
    pub open spec fn spec_shift_lateral(s: Seq<Invader>, dir: Direction) -> Seq<Invader> {
        match dir {
            Direction::Left => s.map_values(
                |inv: Invader| (Invader { x: (inv.x - 1) as usize, y: inv.y }),
            ),
            Direction::Right => s.map_values(
                |inv: Invader| (Invader { x: (inv.x + 1) as usize, y: inv.y }),
            ),
        }
    }

    /// Index of the first unit at exactly `(x, y)` among indices `i` and up,
    /// or -1 if there is none.
    pub open spec fn find_from(s: Seq<Invader>, x: usize, y: usize, i: int) -> int
        decreases s.len() - i,
    {
        if i < 0 || i >= s.len() {
            -1
        } else if s[i].x == x && s[i].y == y {
            i
        } else {
            Self::find_from(s, x, y, i + 1)
        }
    }

    /// Index of the first unit at exactly `(x, y)`, or -1 if there is none.
    pub open spec fn spec_find_invader(s: Seq<Invader>, x: usize, y: usize) -> int {
        Self::find_from(s, x, y, 0)
    }
}

/// Each unit of a column block carries the block's column, a row below the
/// scan bound, and a valid position; conversely the block holds a unit for
/// every valid position of that column below the bound.
proof fn lemma_column_block_elems(x: int, y: int)
    ensures
        forall|k: int|
            0 <= k < column_block(x, y).len() ==> (#[trigger] column_block(x, y)[k]).x as int == x
                && column_block(x, y)[k].y < y
                && spec_valid_position(x, column_block(x, y)[k].y as int),
        forall|r: int|
            0 <= r < y && spec_valid_position(x, r) ==> column_block(x, y).contains(
                Invader { x: x as usize, y: r as usize },
            ),
    decreases y,
{
    if y > 0 {
        lemma_column_block_elems(x, y - 1);
        let prev = column_block(x, y - 1);
        let cur = column_block(x, y);
        assert forall|k: int|
            0 <= k < cur.len() implies (#[trigger] cur[k]).x as int == x && cur[k].y < y
                && spec_valid_position(x, cur[k].y as int) by {
            if k < prev.len() {
                assert(cur[k] == prev[k]);
            }
        }
        assert forall|r: int|
            0 <= r < y && spec_valid_position(x, r) implies cur.contains(
            Invader { x: x as usize, y: r as usize },
        ) by {
            let unit = Invader { x: x as usize, y: r as usize };
            if r < y - 1 {
                let k = choose|k: int| 0 <= k < prev.len() && prev[k] == unit;
                assert(cur[k] == unit);
            } else {
                assert(cur[prev.len() as int] == unit);
            }
        }
    }
}

/// Each unit of a scan prefix sits in a column below the scan bound at a
/// valid position; conversely the prefix holds a unit for every valid
/// position in those columns.
proof fn lemma_army_prefix_elems(x: int)
    ensures
        forall|k: int|
            0 <= k < army_prefix(x).len() ==> (#[trigger] army_prefix(x)[k]).x < x
                && spec_valid_position(
                army_prefix(x)[k].x as int,
                army_prefix(x)[k].y as int,
            ),
        forall|cx: int, cy: int|
            0 <= cx < x && spec_valid_position(cx, cy) ==> #[trigger] army_prefix(x).contains(
                Invader { x: cx as usize, y: cy as usize },
            ),
    decreases x,
{
    if x > 0 {
        lemma_army_prefix_elems(x - 1);
        lemma_column_block_elems(x - 1, NUM_ROWS as int);
        let prev = army_prefix(x - 1);
        let block = column_block(x - 1, NUM_ROWS as int);
        let cur = army_prefix(x);
        assert forall|k: int|
            0 <= k < cur.len() implies (#[trigger] cur[k]).x < x && spec_valid_position(
            cur[k].x as int,
            cur[k].y as int,
        ) by {
            if k < prev.len() {
                assert(cur[k] == prev[k]);
            } else {
                assert(cur[k] == block[k - prev.len()]);
            }
        }
        assert forall|cx: int, cy: int|
            0 <= cx < x && spec_valid_position(cx, cy) implies #[trigger] army_prefix(x).contains(
            Invader { x: cx as usize, y: cy as usize },
        ) by {
            let unit = Invader { x: cx as usize, y: cy as usize };
            if cx < x - 1 {
                assert(army_prefix(x - 1).contains(
                    Invader { x: cx as usize, y: cy as usize },
                ));
                let k = choose|k: int| 0 <= k < prev.len() && prev[k] == unit;
                assert(cur[k] == unit);
                assert(cur.contains(unit));
            } else {
                assert(cx == x - 1);
                assert(column_block(x - 1, NUM_ROWS as int).contains(
                    Invader { x: (x - 1) as usize, y: cy as usize },
                ));
                assert(block.contains(unit));
                let k = choose|k: int| 0 <= k < block.len() && block[k] == unit;
                assert(cur[prev.len() + k] == unit);
                assert(cur.contains(unit));
            }
        }
    }
}

/// The initial formation is exactly the fixed lattice: it holds a unit at a
/// position if and only if that position is strictly inside the horizontal
/// margin and the vertical band with both coordinates even. Together with
/// `Invaders::new` returning precisely `initial_army()`, this pins the
/// initial unit set to the same lattice on every construction.
pub proof fn lemma_initial_army_is_lattice()
    ensures
        forall|inv: Invader| #[trigger]
            initial_army().contains(inv) <==> spec_valid_position(
                inv.x as int,
                inv.y as int,
            ),
{
    lemma_army_prefix_elems(NUM_COLS as int);
    assert forall|inv: Invader|
        #[trigger] initial_army().contains(inv) <==> spec_valid_position(
        inv.x as int,
        inv.y as int,
    ) by {
        if initial_army().contains(inv) {
            let k = choose|k: int|
                0 <= k < initial_army().len() && initial_army()[k] == inv;
            assert(spec_valid_position(inv.x as int, inv.y as int));
        }
        if spec_valid_position(inv.x as int, inv.y as int) {
            assert(initial_army().contains(
                Invader { x: (inv.x as int) as usize, y: (inv.y as int) as usize },
            ));
            assert(Invader { x: (inv.x as int) as usize, y: (inv.y as int) as usize } == inv);
        }
    }
}

/// An empty formation has not reached the bottom: with no live units the
/// maximum row defaults to 0, which lies above the bottom row of any grid
/// with more than one row.
pub proof fn lemma_empty_formation_not_at_bottom(invaders: Invaders)
    requires
        invaders.spec_all_killed(),
    ensures
        !invaders.spec_reached_bottom(),
{
}

/// Every unit of the initial formation lies on the grid.
proof fn lemma_initial_army_in_grid()
    ensures
        forall|k: int|
            0 <= k < initial_army().len() ==> Invaders::unit_in_grid(
                #[trigger] initial_army()[k],
            ),
{
    lemma_army_prefix_elems(NUM_COLS as int);
}

impl Invaders {
    fn is_valid_position(x: usize, y: usize) -> (valid: bool)
        ensures
            valid == spec_valid_position(x as int, y as int),
    {
        Self::is_in_bounds(x, y) && Self::is_even(x, y)
    }

    fn is_in_bounds(x: usize, y: usize) -> (in_bounds: bool)
        ensures
            in_bounds == (1 < x < NUM_COLS - 2 && 0 < y < 9),
    {
        let x_in_bounds = (x > 1) && (x < NUM_COLS - 2);
        let y_in_bounds = (y > 0) && (y < 9);
        x_in_bounds && y_in_bounds
    }

    fn is_even(x: usize, y: usize) -> (even: bool)
        ensures
            even == (x as int % 2 == 0 && y as int % 2 == 0),
    {
        (x % 2 == 0) && (y % 2 == 0)
    }

    fn new_army() -> (army: Vec<Invader>)
        ensures
            army@ == initial_army(),
    {
        let mut army: Vec<Invader> = Vec::new();
        for x in 0..NUM_COLS
            invariant
                army@ == army_prefix(x as int),
        {
            proof {
                assert(army@ =~= army_prefix(x as int) + column_block(x as int, 0));
            }
            for y in 0..NUM_ROWS
                invariant
                    army@ == army_prefix(x as int) + column_block(x as int, y as int),
            {
                if Self::is_valid_position(x, y) {
                    army.push(Invader { x, y });
                }
                proof {
                    assert(army@ =~= army_prefix(x as int) + column_block(
                        x as int,
                        y as int + 1,
                    ));
                }
            }
            proof {
                assert(army@ =~= army_prefix(x as int + 1));
            }
        }
        army
    }

    /// The fresh formation: the fixed initial lattice, sweeping rightward,
    /// with the move countdown at its initial duration.
    pub fn new() -> (invaders: Invaders)
        ensures
            invaders.army@ == initial_army(),
            invaders.move_timer == Timer::spec_from_millis(INITIAL_MOVE_MS),
            invaders.direction == Direction::Right,
            invaders.wf(),
    {
        proof {
            lemma_initial_army_in_grid();
        }
        Invaders {
            army: Self::new_army(),
            move_timer: Timer::from_millis(INITIAL_MOVE_MS),
            direction: Direction::Right,
        }
    }

    fn army_max_x(army: &Vec<Invader>) -> (m: usize)
        ensures
            m as int == spec_max_x(army@),
    {
        let mut m: usize = 0;
        let n = army.len();
        for i in 0..n
            invariant
                n == army.len(),
                m as int == spec_max_x(army@.take(i as int)),
        {
            proof {
                let t0 = army@.take(i as int);
                let t1 = army@.take(i as int + 1);
                assert(t1.drop_last() =~= t0);
                assert(t1.last() == army@[i as int]);
            }
            if army[i].x > m {
                m = army[i].x;
            }
        }
        proof {
            assert(army@.take(n as int) =~= army@);
        }
        m
    }

    fn army_min_x(army: &Vec<Invader>) -> (m: usize)
        ensures
            m as int == spec_min_x(army@),
    {
        if army.len() == 0 {
            return 0;
        }
        let mut m: usize = army[0].x;
        let n = army.len();
        proof {
            assert(army@.take(1)[0] == army@[0]);
        }
        for i in 1..n
            invariant
                n == army.len(),
                m as int == spec_min_x(army@.take(i as int)),
        {
            proof {
                let t0 = army@.take(i as int);
                let t1 = army@.take(i as int + 1);
                assert(t1.drop_last() =~= t0);
                assert(t1.last() == army@[i as int]);
            }
            if army[i].x < m {
                m = army[i].x;
            }
        }
        proof {
            assert(army@.take(n as int) =~= army@);
        }
        m
    }

    fn army_max_y(army: &Vec<Invader>) -> (m: usize)
        ensures
            m as int == spec_max_y(army@),
    {
        let mut m: usize = 0;
        let n = army.len();
        for i in 0..n
            invariant
                n == army.len(),
                m as int == spec_max_y(army@.take(i as int)),
        {
            proof {
                let t0 = army@.take(i as int);
                let t1 = army@.take(i as int + 1);
                assert(t1.drop_last() =~= t0);
                assert(t1.last() == army@[i as int]);
            }
            if army[i].y > m {
                m = army[i].y;
            }
        }
        proof {
            assert(army@.take(n as int) =~= army@);
        }
        m
    }

    /// True when every invader has been destroyed: the win condition.
    pub fn all_killed(&self) -> (all_killed: bool)
        ensures
            all_killed == self.spec_all_killed(),
    {
        self.army.len() == 0
    }

    /// True when some live unit has reached the bottom row: the loss
    /// condition. An empty formation has not reached the bottom.
    pub fn reached_bottom(&self) -> (reached: bool)
        ensures
            reached == self.spec_reached_bottom(),
    {
        let max_y = Self::army_max_y(&self.army);
        max_y >= NUM_ROWS - 1
    }

    /// Removes the first unit sitting exactly at `(x, y)`, if any, and
    /// reports whether a removal happened. At most one unit is removed.
    pub fn kill_invader_at(&mut self, x: usize, y: usize) -> (killed: bool)
        ensures
            killed == (Self::spec_find_invader(old(self).army@, x, y) >= 0),
            killed ==> final(self).army@ == old(self).army@.remove(
                Self::spec_find_invader(old(self).army@, x, y),
            ),
            !killed ==> final(self).army@ == old(self).army@,
            final(self).move_timer == old(self).move_timer,
            final(self).direction == old(self).direction,
            old(self).army@.len() <= final(self).army@.len() + 1,
            old(self).wf() ==> final(self).wf(),
    {
        let n = self.army.len();
        for idx in 0..n
            invariant
                n == self.army.len(),
                self.army@ == old(self).army@,
                self.move_timer == old(self).move_timer,
                self.direction == old(self).direction,
                Self::find_from(old(self).army@, x, y, 0) == Self::find_from(
                    old(self).army@,
                    x,
                    y,
                    idx as int,
                ),
        {
            if self.army[idx].x == x && self.army[idx].y == y {
                proof {
                    assert(Self::find_from(old(self).army@, x, y, idx as int) == idx);
                }
                self.army.remove(idx);
                proof {
                    if old(self).wf() {
                        assert forall|k: int|
                            0 <= k < self.army@.len() implies Self::unit_in_grid(
                            #[trigger] self.army@[k],
                        ) by {
                            if k < idx {
                                assert(self.army@[k] == old(self).army@[k]);
                            } else {
                                assert(self.army@[k] == old(self).army@[k + 1]);
                            }
                        }
                    }
                }
                return true;
            }
            proof {
                assert(Self::find_from(old(self).army@, x, y, idx as int) == Self::find_from(
                    old(self).army@,
                    x,
                    y,
                    idx as int + 1,
                ));
            }
        }
        false
    }

    fn update_army_direction(&mut self) -> (downwards: bool)
        ensures
            downwards == old(self).spec_descent(),
            final(self).army@ == old(self).army@,
            final(self).move_timer == old(self).move_timer,
            final(self).direction == (if old(self).spec_descent() {
                opposite(old(self).direction)
            } else {
                old(self).direction
            }),
    {
        let mut move_down = false;
        match self.direction {
            Direction::Left => {
                let min_x = Self::army_min_x(&self.army);
                if min_x == 0 {
                    move_down = true;
                    self.direction = Direction::Right;
                }
            },
            Direction::Right => {
                let max_x = Self::army_max_x(&self.army);
                if max_x == NUM_COLS - 1 {
                    move_down = true;
                    self.direction = Direction::Left;
                }
            },
        }
        move_down
    }

    fn move_army_down(&mut self)
        requires
            forall|k: int|
                0 <= k < old(self).army@.len() ==> (#[trigger] old(self).army@[k]).y
                    < NUM_ROWS,
        ensures
            final(self).army@ == Self::spec_shift_down(old(self).army@),
            final(self).move_timer == old(self).move_timer,
            final(self).direction == old(self).direction,
    {
        let n = self.army.len();
        for idx in 0..n
            invariant
                n == self.army.len(),
                self.army@.len() == old(self).army@.len(),
                self.move_timer == old(self).move_timer,
                self.direction == old(self).direction,
                forall|k: int|
                    idx <= k < n ==> #[trigger] self.army@[k] == old(self).army@[k],
                forall|k: int|
                    0 <= k < idx ==> #[trigger] self.army@[k] == (Invader {
                        x: old(self).army@[k].x,
                        y: (old(self).army@[k].y + 1) as usize,
                    }),
                forall|k: int|
                    0 <= k < old(self).army@.len() ==> (#[trigger] old(self).army@[k]).y
                        < NUM_ROWS,
        {
            let unit = self.army[idx];
            self.army.set(idx, Invader { x: unit.x, y: unit.y + 1 });
        }
        proof {
            assert(self.army@ =~= Self::spec_shift_down(old(self).army@));
        }
    }

    fn move_army(&mut self)
        requires
            old(self).direction == Direction::Left ==> forall|k: int|
                0 <= k < old(self).army@.len() ==> (#[trigger] old(self).army@[k]).x >= 1,
            old(self).direction == Direction::Right ==> forall|k: int|
                0 <= k < old(self).army@.len() ==> (#[trigger] old(self).army@[k]).x + 1
                    < NUM_COLS,
        ensures
            final(self).army@ == Self::spec_shift_lateral(
                old(self).army@,
                old(self).direction,
            ),
            final(self).move_timer == old(self).move_timer,
            final(self).direction == old(self).direction,
    {
        let n = self.army.len();
        for idx in 0..n
            invariant
                n == self.army.len(),
                self.army@.len() == old(self).army@.len(),
                self.move_timer == old(self).move_timer,
                self.direction == old(self).direction,
                old(self).direction == Direction::Left ==> forall|k: int|
                    0 <= k < old(self).army@.len() ==> (#[trigger] old(self).army@[k]).x
                        >= 1,
                old(self).direction == Direction::Right ==> forall|k: int|
                    0 <= k < old(self).army@.len() ==> (#[trigger] old(self).army@[k]).x
                        + 1 < NUM_COLS,
                forall|k: int|
                    idx <= k < n ==> #[trigger] self.army@[k] == old(self).army@[k],
                old(self).direction == Direction::Left ==> forall|k: int|
                    0 <= k < idx ==> #[trigger] self.army@[k] == (Invader {
                        x: (old(self).army@[k].x - 1) as usize,
                        y: old(self).army@[k].y,
                    }),
                old(self).direction == Direction::Right ==> forall|k: int|
                    0 <= k < idx ==> #[trigger] self.army@[k] == (Invader {
                        x: (old(self).army@[k].x + 1) as usize,
                        y: old(self).army@[k].y,
                    }),
        {
            let unit = self.army[idx];
            match self.direction {
                Direction::Left => {
                    self.army.set(idx, Invader { x: unit.x - 1, y: unit.y });
                },
                Direction::Right => {
                    self.army.set(idx, Invader { x: unit.x + 1, y: unit.y });
                },
            }
        }
        proof {
            assert(self.army@ =~= Self::spec_shift_lateral(
                old(self).army@,
                old(self).direction,
            ));
        }
    }

    /// One simulation tick. The countdown consumes `delta_ms`; if it has not
    /// elapsed, nothing else changes and no move is reported. If it has
    /// elapsed, exactly one discrete move happens: a descent (every unit one
    /// row down, direction reversed, countdown duration irreversibly
    /// shortened by `MOVE_RAMP_MS` down to the `MIN_MOVE_MS` floor) when the
    /// extremal unit sits on the boundary in the sweep direction, otherwise
    /// a lateral shift of every unit by one column, leaving the direction
    /// and the countdown duration unchanged.
    pub fn update(&mut self, delta_ms: u64) -> (moved: bool)
        requires
            old(self).wf(),
        ensures
            moved == old(self).move_timer.spec_update(delta_ms).ready,
            !moved ==> {
                &&& final(self).army@ == old(self).army@
                &&& final(self).direction == old(self).direction
                &&& final(self).move_timer == old(self).move_timer.spec_update(delta_ms)
            },
            moved ==> final(self).direction == (if old(self).spec_descent() {
                opposite(old(self).direction)
            } else {
                old(self).direction
            }),
            moved && old(self).spec_descent() ==> {
                &&& final(self).army@ == Self::spec_shift_down(old(self).army@)
                &&& final(self).move_timer == Timer::spec_from_millis(
                    Self::spec_ramped(old(self).move_timer.duration_ms),
                )
            },
            moved && !old(self).spec_descent() ==> {
                &&& final(self).army@ == Self::spec_shift_lateral(
                    old(self).army@,
                    old(self).direction,
                )
                &&& final(self).move_timer == Timer::spec_from_millis(
                    old(self).move_timer.duration_ms,
                )
            },
            final(self).move_timer.duration_ms <= old(self).move_timer.duration_ms,
            final(self).move_timer.duration_ms >= MIN_MOVE_MS,
            !old(self).spec_reached_bottom() ==> final(self).wf(),
    {
        self.move_timer.update(delta_ms);
        if self.move_timer.ready {
            self.move_timer.reset();
            let downwards = self.update_army_direction();
            if downwards {
                self.move_army_down();
                proof {
                    if !old(self).spec_reached_bottom() {
                        lemma_max_y_ge_all(old(self).army@);
                        assert forall|k: int|
                            0 <= k < self.army@.len() implies Self::unit_in_grid(
                            #[trigger] self.army@[k],
                        ) by {
                            assert(Self::unit_in_grid(old(self).army@[k]));
                            assert(old(self).army@[k].y <= spec_max_y(old(self).army@));
                            assert(self.army@[k] == Self::spec_shift_down(
                                old(self).army@,
                            )[k]);
                        }
                    }
                }
                let new_duration = if self.move_timer.duration_ms >= MIN_MOVE_MS
                    + MOVE_RAMP_MS {
                    self.move_timer.duration_ms - MOVE_RAMP_MS
                } else {
                    MIN_MOVE_MS
                };
                self.move_timer = Timer::from_millis(new_duration);
            } else {
                proof {
                    match old(self).direction {
                        Direction::Left => {
                            if old(self).army@.len() > 0 {
                                lemma_min_x_le_all(old(self).army@);
                                lemma_min_x_nonneg(old(self).army@);
                            }
                        },
                        Direction::Right => {
                            lemma_max_x_ge_all(old(self).army@);
                            assert forall|k: int|
                                0 <= k < old(self).army@.len() implies (#[trigger] old(
                                self,
                            ).army@[k]).x <= NUM_COLS - 1 by {
                                assert(Self::unit_in_grid(old(self).army@[k]));
                            }
                            lemma_max_x_le(old(self).army@, NUM_COLS - 1);
                        },
                    }
                }
                self.move_army();
                proof {
                    assert forall|k: int|
                        0 <= k < self.army@.len() implies Self::unit_in_grid(
                        #[trigger] self.army@[k],
                    ) by {
                        assert(Self::unit_in_grid(old(self).army@[k]));
                        assert(self.army@[k] == Self::spec_shift_lateral(
                            old(self).army@,
                            old(self).direction,
                        )[k]);
                    }
                }
            }
            true
        } else {
            false
        }
    }
}

} // verus!
