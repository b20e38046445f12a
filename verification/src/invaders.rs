use vstd::prelude::*;
use crate::NUM_COLS;
use crate::NUM_ROWS;
use crate::frame::Drawable;
use crate::frame::Frame;
use crate::frame::in_bounds;
use crate::player::PLAYER_ROW;

verus! {

/// The smallest time between two swarm steps, reached as the swarm thins out.
pub const MOVE_MIN_MS: u64 = 100;

/// How much each surviving invader adds to the time between steps.
pub const MOVE_PER_INVADER_MS: u64 = 15;

/// The glyph an invader is drawn with.
pub const INVADER_GLYPH: char = 'x';

/// One live invader: a position on the grid.
#[derive(Clone, Copy, Debug, PartialEq, Eq, Structural)]
pub struct Invader {
    pub x: usize,
    pub y: usize,
}

/// Which way the swarm is marching.
#[derive(Clone, Copy, Debug, PartialEq, Eq, Structural)]
pub enum Direction {
    Left,
    Right,
}

/// The swarm: the live invaders, the time accumulated toward the next step,
/// the time a full step takes, and the marching direction.
pub struct Invaders {
    pub army: Vec<Invader>,
    pub move_timer_ms: u64,
    pub threshold_ms: u64,
    pub direction: Direction,
}

/// An invader's position is on the grid.
pub open spec fn invader_wf(inv: Invader) -> bool {
    inv.x < NUM_COLS && inv.y < NUM_ROWS
}

/// The time between steps for a swarm of `n` live invaders: it shrinks as
/// the swarm shrinks and never drops under `MOVE_MIN_MS`.
pub open spec fn threshold_spec(n: int) -> int {
    MOVE_MIN_MS + MOVE_PER_INVADER_MS * n
}

/// Some invader stands at `(x, y)`.
pub open spec fn has_at(army: Seq<Invader>, x: int, y: int) -> bool {
    exists|i: int| 0 <= i < army.len() && (#[trigger] army[i]).x == x && army[i].y == y
}

/// Some invader stands in column `x`.
pub open spec fn has_in_col(army: Seq<Invader>, x: int) -> bool {
    exists|i: int| 0 <= i < army.len() && (#[trigger] army[i]).x == x
}

/// The position of the first invader at `(x, y)`, in army order.
pub open spec fn first_at(army: Seq<Invader>, x: int, y: int) -> int
    decreases army.len(),
{
    if army.len() == 0 {
        0
    } else if army[0].x == x && army[0].y == y {
        0
    } else {
        1 + first_at(army.drop_first(), x, y)
    }
}

/// The opposite marching direction.
pub open spec fn flipped(dir: Direction) -> Direction {
    match dir {
        Direction::Left => Direction::Right,
        Direction::Right => Direction::Left,
    }
}

/// The swarm stands at the wall it is marching toward: its extreme invader
/// would leave the grid on a sideways step.
pub open spec fn at_edge(army: Seq<Invader>, dir: Direction) -> bool {
    match dir {
        Direction::Left => has_in_col(army, 0),
        Direction::Right => has_in_col(army, NUM_COLS - 1),
    }
}

/// One row down, clamped to the bottom row.
pub open spec fn down_row(y: usize) -> usize {
    if y + 1 < NUM_ROWS {
        (y + 1) as usize
    } else {
        (NUM_ROWS - 1) as usize
    }
}

/// One column over in the marching direction.
pub open spec fn side_col(x: usize, dir: Direction) -> usize {
    match dir {
        Direction::Left => (x - 1) as usize,
        Direction::Right => (x + 1) as usize,
    }
}

/// Every invader one row down, as after a bounce at a wall.
pub open spec fn army_after_flip(army: Seq<Invader>) -> Seq<Invader> {
    army.map_values(|inv: Invader| Invader { x: inv.x, y: down_row(inv.y) })
}

/// Every invader one column over, as after an ordinary sideways step.
pub open spec fn army_after_side(army: Seq<Invader>, dir: Direction) -> Seq<Invader> {
    army.map_values(|inv: Invader| Invader { x: side_col(inv.x, dir), y: inv.y })
}

/// One discrete step: at a wall the swarm descends, otherwise it marches on.
pub open spec fn army_after_step(army: Seq<Invader>, dir: Direction) -> Seq<Invader> {
    if at_edge(army, dir) {
        army_after_flip(army)
    } else {
        army_after_side(army, dir)
    }
}

/// The direction flips exactly when the step happens at a wall.
pub open spec fn dir_after_step(army: Seq<Invader>, dir: Direction) -> Direction {
    if at_edge(army, dir) {
        flipped(dir)
    } else {
        dir
    }
}

/// The starting formation holds the cells with even coordinates in a band
/// near the top, clear of both side walls.
pub open spec fn in_formation(x: int, y: int) -> bool {
    &&& 1 < x < NUM_COLS - 2
    &&& 0 < y < 9
    &&& x % 2 == 0
    &&& y % 2 == 0
}

/// The formation cells of column `x` with row under `y`, top to bottom.
pub open spec fn formation_col(x: int, y: int) -> Seq<Invader>
    decreases y,
{
    if y <= 0 {
        Seq::<Invader>::empty()
    } else {
        formation_col(x, y - 1) + if in_formation(x, y - 1) {
            seq![Invader { x: x as usize, y: (y - 1) as usize }]
        } else {
            Seq::<Invader>::empty()
        }
    }
}

/// The formation cells of the columns left of `x`, column-major.
pub open spec fn formation_upto(x: int) -> Seq<Invader>
    decreases x,
{
    if x <= 0 {
        Seq::<Invader>::empty()
    } else {
        formation_upto(x - 1) + formation_col(x - 1, NUM_ROWS as int)
    }
}

/// The full starting formation.
pub open spec fn formation() -> Seq<Invader> {
    formation_upto(NUM_COLS as int)
}

impl Invaders {
    /// Every invader is on the grid, the army never exceeds the grid's cell
    /// count, and the accumulated time is still short of a full step.
    pub open spec fn wf(self) -> bool {
        &&& self.army@.len() <= NUM_COLS * NUM_ROWS
        &&& forall|i: int| 0 <= i < self.army@.len() ==> invader_wf(#[trigger] self.army@[i])
        &&& self.move_timer_ms < self.threshold_ms
    }

    /// Whether an update of `delta_ms` completes the current step.
    pub open spec fn steps(self, delta_ms: u64) -> bool {
        delta_ms >= self.threshold_ms - self.move_timer_ms
    }

    /// The army after an update of `delta_ms`.
    pub open spec fn army_after_update(self, delta_ms: u64) -> Seq<Invader> {
        if self.steps(delta_ms) {
            army_after_step(self.army@, self.direction)
        } else {
            self.army@
        }
    }

    /// The marching direction after an update of `delta_ms`.
    pub open spec fn dir_after_update(self, delta_ms: u64) -> Direction {
        if self.steps(delta_ms) {
            dir_after_step(self.army@, self.direction)
        } else {
            self.direction
        }
    }

    /// The accumulated time after an update of `delta_ms`.
    pub open spec fn timer_after_update(self, delta_ms: u64) -> int {
        if self.steps(delta_ms) {
            0
        } else {
            self.move_timer_ms + delta_ms
        }
    }

    /// The step time after an update of `delta_ms`: recomputed from the live
    /// count when a step happens, untouched otherwise.
    pub open spec fn threshold_after_update(self, delta_ms: u64) -> int {
        if self.steps(delta_ms) {
            threshold_spec(self.army@.len() as int)
        } else {
            self.threshold_ms as int
        }
    }
}

/// The step time for `n` live invaders, as an integer in hand.
fn threshold_of(n: usize) -> (t: u64)
    requires
        n <= NUM_COLS * NUM_ROWS,
    ensures
        t == threshold_spec(n as int),
        MOVE_MIN_MS <= t,
{
    proof {
        assert(MOVE_PER_INVADER_MS * n <= MOVE_PER_INVADER_MS * (NUM_COLS * NUM_ROWS))
            by (nonlinear_arith)
            requires
                n <= NUM_COLS * NUM_ROWS,
        ;
    }
    MOVE_MIN_MS + MOVE_PER_INVADER_MS * (n as u64)
}

impl Invaders {
    /// A fresh swarm: the full formation, marching right, with a full step
    /// time ahead of it.
    pub fn new() -> (inv: Invaders)
        ensures
            inv.wf(),
            inv.army@ == formation(),
            inv.direction == Direction::Right,
            inv.move_timer_ms == 0,
            inv.threshold_ms == threshold_spec(formation().len() as int),
    {
        let mut army: Vec<Invader> = Vec::new();
        let mut x: usize = 0;
        while x < NUM_COLS
            invariant
                x <= NUM_COLS,
                army@ == formation_upto(x as int),
                army@.len() <= x * NUM_ROWS,
                forall|k: int| 0 <= k < army@.len() ==> invader_wf(#[trigger] army@[k]),
            decreases NUM_COLS - x,
        {
            let mut y: usize = 0;
            while y < NUM_ROWS
                invariant
                    x < NUM_COLS,
                    y <= NUM_ROWS,
                    army@ == formation_upto(x as int) + formation_col(x as int, y as int),
                    army@.len() <= x * NUM_ROWS + y,
                    forall|k: int| 0 <= k < army@.len() ==> invader_wf(#[trigger] army@[k]),
                decreases NUM_ROWS - y,
            {
                if x > 1 && x < NUM_COLS - 2 && y > 0 && y < 9 && x % 2 == 0 && y % 2 == 0 {
                    army.push(Invader { x, y });
                }
                proof {
                    assert(formation_col(x as int, y + 1) == formation_col(x as int, y as int)
                        + if in_formation(x as int, y as int) {
                        seq![Invader { x, y }]
                    } else {
                        Seq::<Invader>::empty()
                    });
                    assert(army@ =~= formation_upto(x as int) + formation_col(x as int, y + 1));
                }
                y = y + 1;
            }
            proof {
                assert(formation_upto(x + 1) == formation_upto(x as int) + formation_col(
                    x as int,
                    NUM_ROWS as int,
                ));
            }
            x = x + 1;
        }
        let count: usize = army.len();
        let threshold_ms: u64 = threshold_of(count);
        Invaders { army, move_timer_ms: 0, threshold_ms, direction: Direction::Right }
    }

    /// Whether some invader stands in column `x`.
    fn any_in_col(&self, x: usize) -> (r: bool)
        ensures
            r == has_in_col(self.army@, x as int),
    {
        let mut i: usize = 0;
        while i < self.army.len()
            invariant
                i <= self.army@.len(),
                forall|j: int| 0 <= j < i ==> (#[trigger] self.army@[j]).x != x,
            decreases self.army@.len() - i,
        {
            if self.army[i].x == x {
                return true;
            }
            i = i + 1;
        }
        false
    }

    /// Advance time by `delta_ms`. When the accumulated time completes a
    /// step, the timer restarts, the step time is recomputed from the live
    /// count, and the swarm either descends (at a wall, flipping direction)
    /// or marches one column on. Returns whether a step happened.
    #[verifier::loop_isolation(false)]
    pub fn update(&mut self, delta_ms: u64) -> (stepped: bool)
        requires
            old(self).wf(),
        ensures
            final(self).wf(),
            stepped == old(self).steps(delta_ms),
            final(self).army@ == old(self).army_after_update(delta_ms),
            final(self).direction == old(self).dir_after_update(delta_ms),
            final(self).move_timer_ms == old(self).timer_after_update(delta_ms),
            final(self).threshold_ms == old(self).threshold_after_update(delta_ms),
    {
        if delta_ms < self.threshold_ms - self.move_timer_ms {
            self.move_timer_ms = self.move_timer_ms + delta_ms;
            return false;
        }
        let ghost dir0: Direction = self.direction;
        let ghost all: Seq<Invader> = self.army@;
        self.move_timer_ms = 0;
        self.threshold_ms = threshold_of(self.army.len());
        let bounce = match self.direction {
            Direction::Left => self.any_in_col(0),
            Direction::Right => self.any_in_col(NUM_COLS - 1),
        };
        if bounce {
            self.direction = match self.direction {
                Direction::Left => Direction::Right,
                Direction::Right => Direction::Left,
            };
            let mut i: usize = 0;
            while i < self.army.len()
                invariant
                    i <= self.army@.len(),
                    self.army@.len() == all.len(),
                    self.move_timer_ms == 0,
                    self.threshold_ms == threshold_spec(all.len() as int),
                    MOVE_MIN_MS <= self.threshold_ms,
                    self.direction == flipped(dir0),
                    forall|k: int| 0 <= k < all.len() ==> invader_wf(#[trigger] all[k]),
                    forall|j: int|
                        0 <= j < i ==> #[trigger] self.army@[j] == (Invader {
                            x: all[j].x,
                            y: down_row(all[j].y),
                        }),
                    forall|j: int| i <= j < all.len() ==> self.army@[j] == all[j],
                decreases self.army@.len() - i,
            {
                let inv = self.army[i];
                proof {
                    assert(inv == all[i as int]);
                }
                let ny: usize = if inv.y + 1 < NUM_ROWS {
                    inv.y + 1
                } else {
                    NUM_ROWS - 1
                };
                self.army[i] = Invader { x: inv.x, y: ny };
                i = i + 1;
            }
            proof {
                assert(self.army@ =~= army_after_flip(all));
            }
        } else {
            let march = self.direction;
            let mut i: usize = 0;
            while i < self.army.len()
                invariant
                    i <= self.army@.len(),
                    self.army@.len() == all.len(),
                    self.move_timer_ms == 0,
                    self.threshold_ms == threshold_spec(all.len() as int),
                    MOVE_MIN_MS <= self.threshold_ms,
                    march == self.direction,
                    self.direction == dir0,
                    !at_edge(all, march),
                    forall|k: int| 0 <= k < all.len() ==> invader_wf(#[trigger] all[k]),
                    forall|j: int|
                        0 <= j < i ==> #[trigger] self.army@[j] == (Invader {
                            x: side_col(all[j].x, march),
                            y: all[j].y,
                        }),
                    forall|j: int| i <= j < all.len() ==> self.army@[j] == all[j],
                decreases self.army@.len() - i,
            {
                let inv = self.army[i];
                proof {
                    assert(all[i as int] == inv);
                }
                let nx: usize = match march {
                    Direction::Left => inv.x - 1,
                    Direction::Right => inv.x + 1,
                };
                self.army[i] = Invader { x: nx, y: inv.y };
                i = i + 1;
            }
            proof {
                assert(self.army@ =~= army_after_side(all, march));
            }
        }
        true
    }

    /// True exactly when no invader is left: the win condition.
    pub fn all_killed(&self) -> (r: bool)
        ensures
            r == (self.army@.len() == 0),
    {
        self.army.is_empty()
    }

    /// True exactly when some invader has reached the player's row: the loss
    /// condition.
    pub fn reached_bottom(&self) -> (r: bool)
        ensures
            r == exists|i: int|
                0 <= i < self.army@.len() && (#[trigger] self.army@[i]).y >= PLAYER_ROW,
    {
        let mut i: usize = 0;
        while i < self.army.len()
            invariant
                i <= self.army@.len(),
                forall|j: int| 0 <= j < i ==> (#[trigger] self.army@[j]).y < PLAYER_ROW,
            decreases self.army@.len() - i,
        {
            if self.army[i].y >= PLAYER_ROW {
                return true;
            }
            i = i + 1;
        }
        false
    }

    /// Remove the first invader standing at `(x, y)`, if any; report whether
    /// one was removed. Nothing else about the swarm changes.
    #[verifier::loop_isolation(false)]
    pub fn kill_invader_at(&mut self, x: usize, y: usize) -> (killed: bool)
        requires
            old(self).wf(),
        ensures
            final(self).wf(),
            killed == has_at(old(self).army@, x as int, y as int),
            killed ==> final(self).army@ == old(self).army@.remove(
                first_at(old(self).army@, x as int, y as int),
            ),
            !killed ==> final(self).army@ == old(self).army@,
            final(self).move_timer_ms == old(self).move_timer_ms,
            final(self).threshold_ms == old(self).threshold_ms,
            final(self).direction == old(self).direction,
    {
        let ghost all: Seq<Invader> = self.army@;
        let mut i: usize = 0;
        while i < self.army.len()
            invariant
                i <= self.army@.len(),
                self.army@ == all,
                self.move_timer_ms == old(self).move_timer_ms,
                self.threshold_ms == old(self).threshold_ms,
                self.direction == old(self).direction,
                forall|j: int|
                    0 <= j < i ==> !((#[trigger] all[j]).x == x && all[j].y == y),
            decreases self.army@.len() - i,
        {
            if self.army[i].x == x && self.army[i].y == y {
                proof {
                    lemma_first_at_is(all, x as int, y as int, i as int);
                }
                self.army.remove(i);
                proof {
                    assert forall|k: int| 0 <= k < self.army@.len() implies invader_wf(
                        #[trigger] self.army@[k],
                    ) by {
                        if k < i {
                            assert(self.army@[k] == all[k]);
                        } else {
                            assert(self.army@[k] == all[k + 1]);
                        }
                    }
                }
                return true;
            }
            i = i + 1;
        }
        false
    }
}

/// When some invader stands at `(x, y)`, `first_at` names a real position
/// of the army, and the invader there is the one looked for.
pub proof fn lemma_first_at_in_range(army: Seq<Invader>, x: int, y: int)
    requires
        has_at(army, x, y),
    ensures
        0 <= first_at(army, x, y) < army.len(),
        army[first_at(army, x, y)].x == x,
        army[first_at(army, x, y)].y == y,
    decreases army.len(),
{
    if !(army[0].x == x && army[0].y == y) {
        let rest = army.drop_first();
        let k = choose|i: int|
            0 <= i < army.len() && (#[trigger] army[i]).x == x && army[i].y == y;
        assert(rest[k - 1] == army[k]);
        assert(has_at(rest, x, y));
        lemma_first_at_in_range(rest, x, y);
        assert(army[first_at(army, x, y)] == rest[first_at(rest, x, y)]);
    }
}

/// When position `i` holds the first invader at `(x, y)` — a match at `i`
/// with no match before it — `first_at` names exactly `i`.
proof fn lemma_first_at_is(army: Seq<Invader>, x: int, y: int, i: int)
    requires
        0 <= i < army.len(),
        army[i].x == x && army[i].y == y,
        forall|j: int| 0 <= j < i ==> !((#[trigger] army[j]).x == x && army[j].y == y),
    ensures
        first_at(army, x, y) == i,
        has_at(army, x, y),
    decreases i,
{
    if i == 0 {
        assert(first_at(army, x, y) == 0);
    } else {
        assert(!(army[0].x == x && army[0].y == y));
        let rest = army.drop_first();
        assert(rest[i - 1] == army[i]);
        assert forall|j: int| 0 <= j < i - 1 implies !((#[trigger] rest[j]).x == x && rest[j].y
            == y) by {
            assert(rest[j] == army[j + 1]);
        }
        lemma_first_at_is(rest, x, y, i - 1);
    }
}

/// The step cadence speeds up as the swarm thins: a smaller live count
/// gives a strictly smaller step time, and the step time never drops under
/// `MOVE_MIN_MS`, so the cadence has a positive floor.
pub proof fn lemma_cadence_speeds_up(n1: int, n2: int)
    requires
        0 <= n1 < n2,
    ensures
        threshold_spec(n1) < threshold_spec(n2),
        MOVE_MIN_MS <= threshold_spec(n1),
{
    assert(MOVE_PER_INVADER_MS * n1 < MOVE_PER_INVADER_MS * n2) by (nonlinear_arith)
        requires
            0 <= n1 < n2,
    ;
}

/// However small the swarm, an update of a full step time always completes
/// a step: the swarm never stalls.
pub proof fn lemma_update_cannot_stall(inv: Invaders, delta_ms: u64)
    requires
        inv.wf(),
        delta_ms >= inv.threshold_ms,
    ensures
        inv.steps(delta_ms),
{
}

/// At a wall the direction flips, and that step is a pure descent: every
/// invader drops exactly one row and none moves sideways.
pub proof fn lemma_flip_descends(army: Seq<Invader>, dir: Direction)
    requires
        at_edge(army, dir),
        forall|i: int| 0 <= i < army.len() ==> (#[trigger] army[i]).y + 1 < NUM_ROWS,
    ensures
        dir_after_step(army, dir) == flipped(dir),
        army_after_step(army, dir).len() == army.len(),
        forall|i: int|
            0 <= i < army.len() ==> (#[trigger] army_after_step(army, dir)[i]).x == army[i].x
                && army_after_step(army, dir)[i].y == army[i].y + 1,
{
}

/// Away from the walls the direction is kept, and the step is a pure
/// sideways march: every invader moves one column over and stays in its row.
pub proof fn lemma_no_flip_marches(army: Seq<Invader>, dir: Direction)
    requires
        !at_edge(army, dir),
    ensures
        dir_after_step(army, dir) == dir,
        army_after_step(army, dir).len() == army.len(),
        forall|i: int|
            0 <= i < army.len() ==> (#[trigger] army_after_step(army, dir)[i]).x == side_col(
                army[i].x,
                dir,
            ) && army_after_step(army, dir)[i].y == army[i].y,
{
}

impl Drawable for Invaders {
    open spec fn draw_req(&self) -> bool {
        self.wf()
    }

    /// Drawing the swarm writes the invader glyph at every live invader's
    /// position; every other cell keeps what was there before.
    open spec fn draws(&self, before: Frame, after: Frame) -> bool {
        forall|cx: int, cy: int|
            in_bounds(cx, cy) ==> after.at(cx, cy) == (if has_at(self.army@, cx, cy) {
                INVADER_GLYPH
            } else {
                before.at(cx, cy)
            })
    }

    fn draw(&self, frame: &mut Frame) {
        let ghost before: Frame = *frame;
        let ghost all: Seq<Invader> = self.army@;
        let mut i: usize = 0;
        while i < self.army.len()
            invariant
                i <= all.len(),
                self.army@ == all,
                self.wf(),
                frame.wf(),
                forall|cx: int, cy: int|
                    in_bounds(cx, cy) ==> frame.at(cx, cy) == (if has_at(all.take(i as int), cx, cy) {
                        INVADER_GLYPH
                    } else {
                        before.at(cx, cy)
                    }),
            decreases all.len() - i,
        {
            let inv = self.army[i];
            frame.set(inv.x, inv.y, INVADER_GLYPH);
            proof {
                assert forall|cx: int, cy: int| in_bounds(cx, cy) implies frame.at(cx, cy) == (
                if has_at(all.take(i + 1), cx, cy) {
                    INVADER_GLYPH
                } else {
                    before.at(cx, cy)
                }) by {
                    if has_at(all.take(i + 1), cx, cy) {
                        let k = choose|k: int|
                            0 <= k < all.take(i + 1).len() && (#[trigger] all.take(i + 1)[k]).x
                                == cx && all.take(i + 1)[k].y == cy;
                        if k < i {
                            assert(all.take(i as int)[k] == all.take(i + 1)[k]);
                            assert(has_at(all.take(i as int), cx, cy));
                        }
                    } else {
                        assert(all.take(i + 1)[i as int] == inv);
                        assert(!(inv.x == cx && inv.y == cy));
                        assert(!has_at(all.take(i as int), cx, cy)) by {
                            if has_at(all.take(i as int), cx, cy) {
                                let k = choose|k: int|
                                    0 <= k < all.take(i as int).len() && (#[trigger] all.take(
                                        i as int,
                                    )[k]).x == cx && all.take(i as int)[k].y == cy;
                                assert(all.take(i + 1)[k] == all.take(i as int)[k]);
                            }
                        }
                    }
                }
            }
            i = i + 1;
        }
        proof {
            assert(all.take(all.len() as int) =~= all);
        }
    }
}

} // verus!
