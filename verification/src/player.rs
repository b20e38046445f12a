use vstd::prelude::*;
use crate::NUM_COLS;
use crate::NUM_ROWS;
use crate::frame::BLANK;
use crate::frame::Drawable;
use crate::frame::Frame;
use crate::frame::in_bounds;
use crate::invaders::Invader;
use crate::invaders::Invaders;
use crate::invaders::first_at;
use crate::invaders::has_at;
use crate::shot::Shot;
use crate::shot::shot_dead;
use crate::shot::shot_step;
use crate::shot::shot_wf;

verus! {

/// The fixed row the ship sits on, at the bottom of the grid.
pub const PLAYER_ROW: usize = NUM_ROWS - 1;

/// How many projectiles may be in flight at once.
pub const MAX_SHOTS: usize = 2;

/// Milliseconds that must elapse after a successful shot before the next one.
pub const SHOT_COOLDOWN_MS: u64 = 500;

/// The glyph the ship is drawn with.
pub const PLAYER_GLYPH: char = 'A';

/// The glyph a projectile in flight is drawn with.
pub const SHOT_GLYPH: char = '|';

/// The player-controlled ship: a column, the fixed bottom row, the
/// projectiles in flight, and the time still to wait before shooting again.
pub struct Player {
    pub x: usize,
    pub y: usize,
    pub shots: Vec<Shot>,
    pub cooldown_ms: u64,
}

/// What remains of a cooldown of `cd` after `delta_ms` elapsed: it decays
/// toward zero and never goes negative.
pub open spec fn cooldown_after(cd: u64, delta_ms: u64) -> u64 {
    if delta_ms >= cd {
        0
    } else {
        (cd - delta_ms) as u64
    }
}

/// The projectiles after one time update: each is advanced by `delta_ms`,
/// in order, and the spent ones are dropped.
pub open spec fn shots_after(shots: Seq<Shot>, delta_ms: u64) -> Seq<Shot>
    decreases shots.len(),
{
    if shots.len() == 0 {
        Seq::<Shot>::empty()
    } else {
        let stepped = shot_step(shots.last(), delta_ms);
        let rest = shots_after(shots.drop_last(), delta_ms);
        if shot_dead(stepped) {
            rest
        } else {
            rest.push(stepped)
        }
    }
}

/// Some projectile in `shots` is in flight (not exploding) at `(x, y)`.
pub open spec fn live_shot_at(shots: Seq<Shot>, x: int, y: int) -> bool {
    exists|i: int|
        0 <= i < shots.len() && !(#[trigger] shots[i]).exploding && shots[i].x == x && shots[i].y
            == y
}

impl Player {
    /// The ship's column is on the grid, it sits on the bottom row, the
    /// projectile cap is respected, and every projectile is well formed.
    pub open spec fn wf(self) -> bool {
        &&& self.x < NUM_COLS
        &&& self.y == PLAYER_ROW
        &&& self.shots@.len() <= MAX_SHOTS
        &&& forall|i: int| 0 <= i < self.shots@.len() ==> shot_wf(#[trigger] self.shots@[i])
        &&& self.cooldown_ms <= SHOT_COOLDOWN_MS
    }

    /// Shooting is allowed when the cooldown has elapsed and the cap is not
    /// reached.
    pub open spec fn can_shoot(self) -> bool {
        self.cooldown_ms == 0 && self.shots@.len() < MAX_SHOTS
    }

    /// A fresh ship at the center column, with no projectiles and no cooldown.
    pub fn new() -> (p: Player)
        ensures
            p.wf(),
            p.x == NUM_COLS / 2,
            p.y == PLAYER_ROW,
            p.shots@.len() == 0,
            p.cooldown_ms == 0,
    {
        Player { x: NUM_COLS / 2, y: PLAYER_ROW, shots: Vec::new(), cooldown_ms: 0 }
    }

    /// Move one column left; at the left edge this is a no-op.
    pub fn move_left(&mut self)
        requires
            old(self).wf(),
        ensures
            final(self).wf(),
            final(self).x == if old(self).x > 0 { old(self).x - 1 } else { 0 },
            final(self).y == old(self).y,
            final(self).shots@ == old(self).shots@,
            final(self).cooldown_ms == old(self).cooldown_ms,
    {
        if self.x > 0 {
            self.x = self.x - 1;
        }
    }

    /// Move one column right; at the right edge this is a no-op.
    pub fn move_right(&mut self)
        requires
            old(self).wf(),
        ensures
            final(self).wf(),
            final(self).x == if old(self).x < NUM_COLS - 1 {
                old(self).x + 1
            } else {
                NUM_COLS - 1
            },
            final(self).y == old(self).y,
            final(self).shots@ == old(self).shots@,
            final(self).cooldown_ms == old(self).cooldown_ms,
    {
        if self.x < NUM_COLS - 1 {
            self.x = self.x + 1;
        }
    }

    /// Fire a projectile from the row above the ship. Succeeds exactly when
    /// the cooldown has elapsed and the cap is not reached; on success the
    /// cooldown restarts, otherwise nothing changes.
    pub fn shoot(&mut self) -> (fired: bool)
        requires
            old(self).wf(),
        ensures
            final(self).wf(),
            fired == old(self).can_shoot(),
            final(self).x == old(self).x,
            final(self).y == old(self).y,
            fired ==> {
                &&& final(self).shots@ == old(self).shots@.push(
                    Shot { x: old(self).x, y: (old(self).y - 1) as usize, exploding: false, timer_ms: 0 },
                )
                &&& final(self).cooldown_ms == SHOT_COOLDOWN_MS
            },
            !fired ==> {
                &&& final(self).shots@ == old(self).shots@
                &&& final(self).cooldown_ms == old(self).cooldown_ms
            },
    {
        if self.cooldown_ms == 0 && self.shots.len() < MAX_SHOTS {
            let shot = Shot::new(self.x, self.y - 1);
            self.shots.push(shot);
            self.cooldown_ms = SHOT_COOLDOWN_MS;
            true
        } else {
            false
        }
    }

    /// Advance time by `delta_ms`: the cooldown decays toward zero, every
    /// projectile advances, and spent projectiles are removed.
    pub fn update(&mut self, delta_ms: u64)
        requires
            old(self).wf(),
        ensures
            final(self).wf(),
            final(self).x == old(self).x,
            final(self).y == old(self).y,
            final(self).cooldown_ms == cooldown_after(old(self).cooldown_ms, delta_ms),
            final(self).shots@ == shots_after(old(self).shots@, delta_ms),
    {
        if delta_ms >= self.cooldown_ms {
            self.cooldown_ms = 0;
        } else {
            self.cooldown_ms = self.cooldown_ms - delta_ms;
        }
        let ghost all: Seq<Shot> = self.shots@;
        let mut kept: Vec<Shot> = Vec::new();
        let mut i: usize = 0;
        while i < self.shots.len()
            invariant
                i <= self.shots@.len(),
                self.shots@ == all,
                forall|k: int| 0 <= k < all.len() ==> shot_wf(#[trigger] all[k]),
                kept@ == shots_after(all.take(i as int), delta_ms),
                kept@.len() <= i,
                forall|k: int| 0 <= k < kept@.len() ==> shot_wf(#[trigger] kept@[k]),
            decreases self.shots@.len() - i,
        {
            let mut s = self.shots[i];
            s.update(delta_ms);
            proof {
                assert(all.take(i + 1).drop_last() =~= all.take(i as int));
                assert(all.take(i + 1).last() == all[i as int]);
            }
            if !s.dead() {
                kept.push(s);
            }
            i = i + 1;
        }
        proof {
            assert(all.take(all.len() as int) =~= all);
        }
        self.shots = kept;
    }

    /// Resolve collisions against the swarm: every projectile standing on a
    /// live invader is removed together with that invader, in one pass over
    /// the projectiles in order. Returns whether anything was hit.
    #[verifier::loop_isolation(false)]
    pub fn detect_hits(&mut self, invaders: &mut Invaders) -> (hit: bool)
        requires
            old(self).wf(),
            old(invaders).wf(),
        ensures
            final(self).wf(),
            final(invaders).wf(),
            final(self).x == old(self).x,
            final(self).y == old(self).y,
            final(self).cooldown_ms == old(self).cooldown_ms,
            final(self).shots@ == resolve(old(self).shots@, old(invaders).army@).0,
            final(invaders).army@ == resolve(old(self).shots@, old(invaders).army@).1,
            hit == resolve(old(self).shots@, old(invaders).army@).2,
            final(invaders).move_timer_ms == old(invaders).move_timer_ms,
            final(invaders).threshold_ms == old(invaders).threshold_ms,
            final(invaders).direction == old(invaders).direction,
    {
        let ghost all: Seq<Shot> = self.shots@;
        let ghost army0: Seq<Invader> = invaders.army@;
        let mut kept: Vec<Shot> = Vec::new();
        let mut hit = false;
        let mut i: usize = 0;
        proof {
            assert(all.skip(0) =~= all);
            assert(Seq::<Shot>::empty() + resolve(all, army0).0 =~= resolve(all, army0).0);
        }
        while i < self.shots.len()
            invariant
                i <= all.len(),
                self.shots@ == all,
                kept@.len() <= i,
                forall|k: int| 0 <= k < kept@.len() ==> shot_wf(#[trigger] kept@[k]),
                invaders.wf(),
                invaders.move_timer_ms == old(invaders).move_timer_ms,
                invaders.threshold_ms == old(invaders).threshold_ms,
                invaders.direction == old(invaders).direction,
                resolve(all, army0) == {
                    let r = resolve(all.skip(i as int), invaders.army@);
                    (kept@ + r.0, r.1, hit || r.2)
                },
            decreases all.len() - i,
        {
            let s = self.shots[i];
            proof {
                let sk = all.skip(i as int);
                assert(sk[0] == all[i as int]);
                assert(sk.drop_first() =~= all.skip(i + 1));
            }
            if !s.exploding && invaders.kill_invader_at(s.x, s.y) {
                hit = true;
            } else {
                let ghost kept0: Seq<Shot> = kept@;
                kept.push(s);
                proof {
                    let r = resolve(all.skip(i + 1), invaders.army@);
                    assert(kept@ + r.0 =~= kept0 + (seq![s] + r.0));
                }
            }
            i = i + 1;
        }
        proof {
            assert(all.skip(all.len() as int) =~= Seq::<Shot>::empty());
            assert(kept@ + Seq::<Shot>::empty() =~= kept@);
        }
        self.shots = kept;
        hit
    }
}

/// One collision pass: each projectile in order is held against the current
/// army; an exact position match removes the projectile and the first
/// invader standing there, and the pass reports whether anything was hit.
pub open spec fn resolve(shots: Seq<Shot>, army: Seq<Invader>) -> (Seq<Shot>, Seq<Invader>, bool)
    decreases shots.len(),
{
    if shots.len() == 0 {
        (shots, army, false)
    } else {
        let s = shots[0];
        if !s.exploding && has_at(army, s.x as int, s.y as int) {
            let r = resolve(
                shots.drop_first(),
                army.remove(first_at(army, s.x as int, s.y as int)),
            );
            (r.0, r.1, true)
        } else {
            let r = resolve(shots.drop_first(), army);
            (seq![s] + r.0, r.1, r.2)
        }
    }
}

/// A projectile standing exactly on a live invader takes both out in one
/// resolution pass, and the pass reports the hit.
pub proof fn lemma_hit_removes_both(s: Shot, army: Seq<Invader>)
    requires
        !s.exploding,
        has_at(army, s.x as int, s.y as int),
    ensures
        resolve(seq![s], army).0 == Seq::<Shot>::empty(),
        resolve(seq![s], army).1 == army.remove(first_at(army, s.x as int, s.y as int)),
        resolve(seq![s], army).1.len() == army.len() - 1,
        resolve(seq![s], army).2,
{
    crate::invaders::lemma_first_at_in_range(army, s.x as int, s.y as int);
    let army1 = army.remove(first_at(army, s.x as int, s.y as int));
    assert(seq![s].drop_first() =~= Seq::<Shot>::empty());
    assert(resolve(Seq::<Shot>::empty(), army1) == (Seq::<Shot>::empty(), army1, false));
    assert(seq![s][0] == s);
}

/// A projectile that matches no live invader's position removes nothing:
/// the projectile flies on and the army stands unchanged.
pub proof fn lemma_no_match_no_removal(s: Shot, army: Seq<Invader>)
    requires
        !has_at(army, s.x as int, s.y as int),
    ensures
        resolve(seq![s], army).0 == seq![s],
        resolve(seq![s], army).1 == army,
        !resolve(seq![s], army).2,
{
    assert(seq![s].drop_first() =~= Seq::<Shot>::empty());
    assert(resolve(Seq::<Shot>::empty(), army) == (Seq::<Shot>::empty(), army, false));
    assert(seq![s][0] == s);
    assert(seq![s] + Seq::<Shot>::empty() =~= seq![s]);
}

impl Drawable for Player {
    open spec fn draw_req(&self) -> bool {
        self.wf()
    }

    /// Drawing the ship writes its glyph at its position, then each live
    /// projectile's glyph at that projectile's position; every other cell
    /// keeps what was there before.
    open spec fn draws(&self, before: Frame, after: Frame) -> bool {
        forall|cx: int, cy: int|
            in_bounds(cx, cy) ==> after.at(cx, cy) == (if live_shot_at(self.shots@, cx, cy) {
                SHOT_GLYPH
            } else if cx == self.x && cy == self.y {
                PLAYER_GLYPH
            } else {
                before.at(cx, cy)
            })
    }

    fn draw(&self, frame: &mut Frame) {
        let ghost before: Frame = *frame;
        let ghost all: Seq<Shot> = self.shots@;
        frame.set(self.x, self.y, PLAYER_GLYPH);
        let mut i: usize = 0;
        while i < self.shots.len()
            invariant
                i <= all.len(),
                self.shots@ == all,
                self.wf(),
                frame.wf(),
                forall|cx: int, cy: int|
                    in_bounds(cx, cy) ==> frame.at(cx, cy) == (if live_shot_at(
                        all.take(i as int),
                        cx,
                        cy,
                    ) {
                        SHOT_GLYPH
                    } else if cx == self.x && cy == self.y {
                        PLAYER_GLYPH
                    } else {
                        before.at(cx, cy)
                    }),
            decreases all.len() - i,
        {
            let s = self.shots[i];
            let ghost prev: Frame = *frame;
            if !s.exploding {
                frame.set(s.x, s.y, SHOT_GLYPH);
            }
            proof {
                assert forall|cx: int, cy: int| in_bounds(cx, cy) implies frame.at(cx, cy) == (
                if live_shot_at(all.take(i + 1), cx, cy) {
                    SHOT_GLYPH
                } else if cx == self.x && cy == self.y {
                    PLAYER_GLYPH
                } else {
                    before.at(cx, cy)
                }) by {
                    if live_shot_at(all.take(i + 1), cx, cy) {
                        let k = choose|k: int|
                            0 <= k < all.take(i + 1).len() && !(#[trigger] all.take(
                                i + 1,
                            )[k]).exploding && all.take(i + 1)[k].x == cx && all.take(i + 1)[k].y
                                == cy;
                        if k < i {
                            assert(live_shot_at(all.take(i as int), cx, cy));
                        }
                    } else {
                        if !s.exploding && s.x == cx && s.y == cy {
                            assert(all.take(i + 1)[i as int] == s);
                            assert(live_shot_at(all.take(i + 1), cx, cy));
                        }
                        assert(!live_shot_at(all.take(i as int), cx, cy)) by {
                            if live_shot_at(all.take(i as int), cx, cy) {
                                let k = choose|k: int|
                                    0 <= k < all.take(i as int).len() && !(#[trigger] all.take(
                                        i as int,
                                    )[k]).exploding && all.take(i as int)[k].x == cx && all.take(
                                        i as int,
                                    )[k].y == cy;
                                assert(all.take(i + 1)[k] == all.take(i as int)[k]);
                            }
                        }
                    }
                }
            }
            i = i + 1;
        }
        proof {
            assert(all.take(all.len() as int) =~= all);
        }
    }
}

} // verus!
