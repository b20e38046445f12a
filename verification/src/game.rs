use vstd::prelude::*;
use crate::NUM_COLS;
use crate::frame::BLANK;
use crate::frame::Drawable;
use crate::frame::Frame;
use crate::frame::in_bounds;
use crate::frame::new_frame;
use crate::invaders::Invader;
use crate::invaders::Invaders;
use crate::invaders::INVADER_GLYPH;
use crate::invaders::has_at;
use crate::player::MAX_SHOTS;
use crate::player::PLAYER_GLYPH;
use crate::player::PLAYER_ROW;
use crate::player::Player;
use crate::player::SHOT_COOLDOWN_MS;
use crate::player::SHOT_GLYPH;
use crate::player::cooldown_after;
use crate::player::live_shot_at;
use crate::player::resolve;
use crate::player::shots_after;
use crate::shot::Shot;

verus! {

/// A decoded input event: all the game loop ever consumes from the keyboard.
#[derive(Clone, Copy, Debug, PartialEq, Eq, Structural)]
pub enum Intent {
    MoveLeft,
    MoveRight,
    Shoot,
    Quit,
    Other,
}

/// How one tick left the session.
#[derive(Clone, Copy, Debug, PartialEq, Eq, Structural)]
pub enum Outcome {
    Continue,
    Win,
    Lose,
    Quit,
}

/// The part of the game the input intents act on, together with what the
/// intents decided: whether a shot was fired and whether the player quit.
pub ghost struct InputState {
    pub x: usize,
    pub shots: Seq<Shot>,
    pub cooldown_ms: u64,
    pub fired: bool,
    pub quit: bool,
}

/// The input state a ship presents before any intent has been applied.
pub open spec fn input_state_of(p: Player) -> InputState {
    InputState { x: p.x, shots: p.shots@, cooldown_ms: p.cooldown_ms, fired: false, quit: false }
}

/// What a single intent does to the input state: the moves clamp at the
/// walls, a shot needs an elapsed cooldown and a free slot, quitting sets
/// the flag, and anything else is ignored.
pub open spec fn step_intent(st: InputState, y: usize, intent: Intent) -> InputState {
    match intent {
        Intent::MoveLeft => InputState {
            x: if st.x > 0 {
                (st.x - 1) as usize
            } else {
                0
            },
            ..st
        },
        Intent::MoveRight => InputState {
            x: if st.x < NUM_COLS - 1 {
                (st.x + 1) as usize
            } else {
                (NUM_COLS - 1) as usize
            },
            ..st
        },
        Intent::Shoot => if st.cooldown_ms == 0 && st.shots.len() < MAX_SHOTS {
            InputState {
                shots: st.shots.push(
                    Shot { x: st.x, y: (y - 1) as usize, exploding: false, timer_ms: 0 },
                ),
                cooldown_ms: SHOT_COOLDOWN_MS,
                fired: true,
                ..st
            }
        } else {
            st
        },
        Intent::Quit => InputState { quit: true, ..st },
        Intent::Other => st,
    }
}

/// Apply a queue of intents in order; a quit stops the queue, as the
/// session ends on the spot.
pub open spec fn run_intents(st: InputState, y: usize, intents: Seq<Intent>) -> InputState
    decreases intents.len(),
{
    if intents.len() == 0 || st.quit {
        st
    } else {
        run_intents(step_intent(st, y, intents[0]), y, intents.drop_first())
    }
}

/// The input state after one tick's whole intent queue.
pub open spec fn input_phase(p: Player, intents: Seq<Intent>) -> InputState {
    run_intents(input_state_of(p), p.y, intents)
}

/// The projectiles after the intents and the tick's time update, just
/// before collisions are resolved.
pub open spec fn shots_mid(p: Player, intents: Seq<Intent>, delta_ms: u64) -> Seq<Shot> {
    shots_after(input_phase(p, intents).shots, delta_ms)
}

/// The tick's collision pass: the advanced projectiles against the stepped
/// army.
pub open spec fn combat(p: Player, inv: Invaders, intents: Seq<Intent>, delta_ms: u64) -> (
    Seq<Shot>,
    Seq<Invader>,
    bool,
) {
    resolve(shots_mid(p, intents, delta_ms), inv.army_after_update(delta_ms))
}

/// The session's verdict over an army: empty means victory, an invader on
/// the player's row means defeat, anything else goes on.
pub open spec fn outcome_of(army: Seq<Invader>) -> Outcome {
    if army.len() == 0 {
        Outcome::Win
    } else if exists|i: int| 0 <= i < army.len() && (#[trigger] army[i]).y >= PLAYER_ROW {
        Outcome::Lose
    } else {
        Outcome::Continue
    }
}

/// Everything one tick hands back to the loop around it: the cue triggers,
/// the verdict, and the freshly drawn frame (absent when the player quit).
pub struct TickResult {
    pub stepped: bool,
    pub any_hit: bool,
    pub fired: bool,
    pub outcome: Outcome,
    pub frame: Option<Frame>,
}

/// One whole tick: apply the queued intents, advance the player and the
/// swarm by the elapsed time, resolve collisions, draw the new frame
/// (player first, swarm over it), and pass the verdict. A quit intent ends
/// the tick at once, before any time passes.
#[verifier::loop_isolation(false)]
pub fn tick(
    player: &mut Player,
    invaders: &mut Invaders,
    intents: &Vec<Intent>,
    delta_ms: u64,
) -> (r: TickResult)
    requires
        old(player).wf(),
        old(invaders).wf(),
    ensures
        final(player).wf(),
        final(invaders).wf(),
        r.fired == input_phase(*old(player), intents@).fired,
        final(player).x == input_phase(*old(player), intents@).x,
        final(player).y == old(player).y,
        (r.outcome == Outcome::Quit) == input_phase(*old(player), intents@).quit,
        input_phase(*old(player), intents@).quit ==> {
            &&& final(player).shots@ == input_phase(*old(player), intents@).shots
            &&& final(player).cooldown_ms == input_phase(*old(player), intents@).cooldown_ms
            &&& *final(invaders) == *old(invaders)
            &&& r.frame is None
            &&& !r.stepped
            &&& !r.any_hit
        },
        !input_phase(*old(player), intents@).quit ==> {
            &&& r.stepped == old(invaders).steps(delta_ms)
            &&& final(player).cooldown_ms == cooldown_after(
                input_phase(*old(player), intents@).cooldown_ms,
                delta_ms,
            )
            &&& final(player).shots@ == combat(*old(player), *old(invaders), intents@, delta_ms).0
            &&& final(invaders).army@ == combat(*old(player), *old(invaders), intents@, delta_ms).1
            &&& r.any_hit == combat(*old(player), *old(invaders), intents@, delta_ms).2
            &&& final(invaders).direction == old(invaders).dir_after_update(delta_ms)
            &&& final(invaders).move_timer_ms == old(invaders).timer_after_update(delta_ms)
            &&& final(invaders).threshold_ms == old(invaders).threshold_after_update(delta_ms)
            &&& r.outcome == outcome_of(combat(*old(player), *old(invaders), intents@, delta_ms).1)
            &&& match r.frame {
                Some(f) => {
                    &&& f.wf()
                    &&& forall|cx: int, cy: int|
                        in_bounds(cx, cy) ==> f.at(cx, cy) == (if has_at(
                            combat(*old(player), *old(invaders), intents@, delta_ms).1,
                            cx,
                            cy,
                        ) {
                            INVADER_GLYPH
                        } else if live_shot_at(
                            combat(*old(player), *old(invaders), intents@, delta_ms).0,
                            cx,
                            cy,
                        ) {
                            SHOT_GLYPH
                        } else if cx == input_phase(*old(player), intents@).x && cy == PLAYER_ROW {
                            PLAYER_GLYPH
                        } else {
                            BLANK
                        })
                },
                None => false,
            }
        },
{
    let ghost p0: Player = *player;
    let mut fired = false;
    let mut quit = false;
    let mut i: usize = 0;
    proof {
        assert(intents@.skip(0) =~= intents@);
    }
    while i < intents.len() && !quit
        invariant
            i <= intents@.len(),
            player.wf(),
            player.y == p0.y,
            input_phase(p0, intents@) == run_intents(
                (InputState {
                    x: player.x,
                    shots: player.shots@,
                    cooldown_ms: player.cooldown_ms,
                    fired: fired,
                    quit: quit,
                }),
                p0.y,
                intents@.skip(i as int),
            ),
        decreases intents@.len() - i,
    {
        let ghost cur = InputState {
            x: player.x,
            shots: player.shots@,
            cooldown_ms: player.cooldown_ms,
            fired: fired,
            quit: quit,
        };
        proof {
            assert(intents@.skip(i as int)[0] == intents@[i as int]);
            assert(intents@.skip(i as int).drop_first() =~= intents@.skip(i + 1));
        }
        match intents[i] {
            Intent::MoveLeft => {
                player.move_left();
            },
            Intent::MoveRight => {
                player.move_right();
            },
            Intent::Shoot => {
                if player.shoot() {
                    fired = true;
                }
            },
            Intent::Quit => {
                quit = true;
            },
            Intent::Other => {},
        }
        proof {
            assert((InputState {
                x: player.x,
                shots: player.shots@,
                cooldown_ms: player.cooldown_ms,
                fired: fired,
                quit: quit,
            }) == step_intent(cur, p0.y, intents@[i as int]));
        }
        i = i + 1;
    }
    proof {
        if !quit {
            assert(intents@.skip(i as int) =~= Seq::<Intent>::empty());
        }
        assert(input_phase(p0, intents@) == (InputState {
            x: player.x,
            shots: player.shots@,
            cooldown_ms: player.cooldown_ms,
            fired: fired,
            quit: quit,
        }));
    }
    if quit {
        return TickResult {
            stepped: false,
            any_hit: false,
            fired,
            outcome: Outcome::Quit,
            frame: None,
        };
    }
    player.update(delta_ms);
    let stepped = invaders.update(delta_ms);
    let any_hit = player.detect_hits(invaders);
    let mut f = new_frame();
    player.draw(&mut f);
    invaders.draw(&mut f);
    let outcome = if invaders.all_killed() {
        Outcome::Win
    } else if invaders.reached_bottom() {
        Outcome::Lose
    } else {
        Outcome::Continue
    };
    TickResult { stepped, any_hit, fired, outcome, frame: Some(f) }
}

/// Whatever intents arrive, in whatever order, the ship's column never
/// leaves the grid: the moves clamp at the walls.
pub proof fn lemma_x_stays_in_bounds(st: InputState, y: usize, intents: Seq<Intent>)
    requires
        st.x < NUM_COLS,
    ensures
        run_intents(st, y, intents).x < NUM_COLS,
    decreases intents.len(),
{
    if intents.len() > 0 && !st.quit {
        lemma_x_stays_in_bounds(step_intent(st, y, intents[0]), y, intents.drop_first());
    }
}

/// A move against a wall is a complete no-op: the state after it is the
/// state before it.
pub proof fn lemma_boundary_moves_are_noops(st: InputState, y: usize)
    ensures
        st.x == 0 ==> step_intent(st, y, Intent::MoveLeft) == st,
        st.x == NUM_COLS - 1 ==> step_intent(st, y, Intent::MoveRight) == st,
{
}

/// A shot that succeeds restarts the cooldown, so a second shot on the
/// spot, with no time update in between, changes nothing.
pub proof fn lemma_no_double_shot(st: InputState, y: usize)
    requires
        st.cooldown_ms == 0,
        st.shots.len() < MAX_SHOTS,
    ensures
        step_intent(st, y, Intent::Shoot).fired,
        step_intent(st, y, Intent::Shoot).cooldown_ms == SHOT_COOLDOWN_MS,
        step_intent(step_intent(st, y, Intent::Shoot), y, Intent::Shoot) == step_intent(
            st,
            y,
            Intent::Shoot,
        ),
{
}

/// However many shoot intents arrive, the number of projectiles in flight
/// never passes the cap.
pub proof fn lemma_shot_cap(st: InputState, y: usize, intents: Seq<Intent>)
    requires
        st.shots.len() <= MAX_SHOTS,
    ensures
        run_intents(st, y, intents).shots.len() <= MAX_SHOTS,
    decreases intents.len(),
{
    if intents.len() > 0 && !st.quit {
        lemma_shot_cap(step_intent(st, y, intents[0]), y, intents.drop_first());
    }
}

} // verus!
