use space_invaders::NUM_COLS;
use space_invaders::frame::BLANK;
use space_invaders::game::Intent;
use space_invaders::game::Outcome;
use space_invaders::game::tick;
use space_invaders::invaders::Direction;
use space_invaders::invaders::INVADER_GLYPH;
use space_invaders::invaders::Invader;
use space_invaders::invaders::Invaders;
use space_invaders::player::PLAYER_GLYPH;
use space_invaders::player::PLAYER_ROW;
use space_invaders::player::Player;
use space_invaders::player::SHOT_COOLDOWN_MS;
use space_invaders::player::SHOT_GLYPH;
use space_invaders::shot::SHOT_PERIOD_MS;

#[test]
fn fresh_game_shot_cooldown_scenario() {
    let mut player = Player::new();
    let mut invaders = Invaders::new();
    assert_eq!(player.x, NUM_COLS / 2);

    // A single shoot intent succeeds on a fresh game.
    let r = tick(&mut player, &mut invaders, &vec![Intent::Shoot], 0);
    assert!(r.fired);
    assert_eq!(r.outcome, Outcome::Continue);

    // A second shoot before any time update fails.
    let r = tick(&mut player, &mut invaders, &vec![Intent::Shoot], 0);
    assert!(!r.fired);

    // Enough elapsed time clears the cooldown and shooting succeeds again.
    let mut waited: u64 = 0;
    while waited < SHOT_COOLDOWN_MS {
        let r = tick(&mut player, &mut invaders, &vec![], SHOT_COOLDOWN_MS / 4);
        assert!(!r.fired);
        waited += SHOT_COOLDOWN_MS / 4;
    }
    let r = tick(&mut player, &mut invaders, &vec![Intent::Shoot], 0);
    assert!(r.fired);
}

#[test]
fn lone_invader_above_the_shot_is_hit() {
    // A swarm of one invader directly above the ship, too slow to move.
    let mut player = Player::new();
    let mut invaders = Invaders {
        army: vec![Invader { x: player.x, y: 20 }],
        move_timer_ms: 0,
        threshold_ms: 1_000_000,
        direction: Direction::Right,
    };
    let r = tick(&mut player, &mut invaders, &vec![Intent::Shoot], 0);
    assert!(r.fired);

    // The projectile climbs one row per period until it reaches the invader.
    let mut hit = false;
    for _ in 0..(PLAYER_ROW - 1 - 20) {
        assert!(!hit);
        let r = tick(&mut player, &mut invaders, &vec![], SHOT_PERIOD_MS);
        hit = r.any_hit;
    }
    assert!(hit);
    assert!(invaders.all_killed());
    let r = tick(&mut player, &mut invaders, &vec![], 0);
    assert_eq!(r.outcome, Outcome::Win);
}

#[test]
fn quit_ends_the_tick_at_once() {
    let mut player = Player::new();
    let mut invaders = Invaders::new();
    let x0 = player.x;
    let r = tick(
        &mut player,
        &mut invaders,
        &vec![Intent::MoveLeft, Intent::Quit, Intent::MoveRight],
        50,
    );
    assert_eq!(r.outcome, Outcome::Quit);
    assert!(r.frame.is_none());
    // The move before the quit was applied; the one after it was not.
    assert_eq!(player.x, x0 - 1);
    assert_eq!(invaders.move_timer_ms, 0);
}

#[test]
fn invader_on_the_player_row_loses_the_game() {
    let mut player = Player::new();
    let mut invaders = Invaders {
        army: vec![Invader { x: 3, y: PLAYER_ROW }],
        move_timer_ms: 0,
        threshold_ms: 1_000_000,
        direction: Direction::Right,
    };
    let r = tick(&mut player, &mut invaders, &vec![], 1);
    assert_eq!(r.outcome, Outcome::Lose);
}

#[test]
fn the_tick_frame_shows_ship_shots_and_invaders() {
    let mut player = Player::new();
    let mut invaders = Invaders {
        army: vec![Invader { x: 3, y: 4 }],
        move_timer_ms: 0,
        threshold_ms: 1_000_000,
        direction: Direction::Right,
    };
    let r = tick(&mut player, &mut invaders, &vec![Intent::Shoot], 0);
    let frame = r.frame.expect("a tick that does not quit draws a frame");
    assert_eq!(frame.get(player.x, PLAYER_ROW), PLAYER_GLYPH);
    assert_eq!(frame.get(player.x, PLAYER_ROW - 1), SHOT_GLYPH);
    assert_eq!(frame.get(3, 4), INVADER_GLYPH);
    assert_eq!(frame.get(0, 0), BLANK);
    assert_eq!(frame.get(10, 10), BLANK);
}

#[test]
fn ignored_keys_change_nothing() {
    let mut player = Player::new();
    let mut invaders = Invaders::new();
    let x0 = player.x;
    let r = tick(&mut player, &mut invaders, &vec![Intent::Other, Intent::Other], 0);
    assert!(!r.fired);
    assert_eq!(r.outcome, Outcome::Continue);
    assert_eq!(player.x, x0);
    assert_eq!(player.shots.len(), 0);
}

#[test]
fn a_full_threshold_tick_steps_the_swarm() {
    let mut player = Player::new();
    let mut invaders = Invaders::new();
    let threshold = invaders.threshold_ms;
    let r = tick(&mut player, &mut invaders, &vec![], threshold);
    assert!(r.stepped);
    // The full formation is clear of the walls, so the step was a march.
    assert_eq!(invaders.direction, Direction::Right);
    let r = tick(&mut player, &mut invaders, &vec![], threshold - 1);
    assert!(!r.stepped);
}
