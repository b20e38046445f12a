use space_invaders::NUM_COLS;
use space_invaders::invaders::Invader;
use space_invaders::invaders::Invaders;
use space_invaders::player::MAX_SHOTS;
use space_invaders::player::PLAYER_ROW;
use space_invaders::player::Player;
use space_invaders::player::SHOT_COOLDOWN_MS;
use space_invaders::shot::SHOT_PERIOD_MS;
use space_invaders::shot::Shot;

#[test]
fn moves_clamp_at_the_walls() {
    let mut p = Player::new();
    assert_eq!(p.x, NUM_COLS / 2);
    for _ in 0..NUM_COLS {
        p.move_left();
    }
    assert_eq!(p.x, 0);
    p.move_left();
    assert_eq!(p.x, 0);
    for _ in 0..2 * NUM_COLS {
        p.move_right();
    }
    assert_eq!(p.x, NUM_COLS - 1);
    p.move_right();
    assert_eq!(p.x, NUM_COLS - 1);
}

#[test]
fn second_shot_within_cooldown_fails() {
    let mut p = Player::new();
    assert!(p.shoot());
    assert_eq!(p.cooldown_ms, SHOT_COOLDOWN_MS);
    assert!(!p.shoot());
    assert_eq!(p.shots.len(), 1);
}

#[test]
fn shot_count_never_passes_the_cap() {
    let mut p = Player::new();
    for _ in 0..20 {
        p.shoot();
        p.update(SHOT_COOLDOWN_MS);
        assert!(p.shots.len() <= MAX_SHOTS);
    }
}

#[test]
fn cooldown_decays_and_shooting_resumes() {
    let mut p = Player::new();
    assert!(p.shoot());
    assert!(!p.shoot());
    p.update(SHOT_COOLDOWN_MS / 2);
    assert!(!p.shoot());
    p.update(SHOT_COOLDOWN_MS / 2);
    assert_eq!(p.cooldown_ms, 0);
    assert!(p.shoot());
}

#[test]
fn projectiles_climb_and_leave_the_grid() {
    let mut p = Player::new();
    assert!(p.shoot());
    assert_eq!(p.shots[0].y, PLAYER_ROW - 1);
    p.update(SHOT_PERIOD_MS);
    assert_eq!(p.shots[0].y, PLAYER_ROW - 2);
    // A projectile climbs one row per period and is dropped at the top row.
    for _ in 0..PLAYER_ROW {
        p.update(SHOT_PERIOD_MS);
    }
    assert_eq!(p.shots.len(), 0);
}

#[test]
fn exact_match_removes_projectile_and_invader() {
    let mut p = Player {
        x: 10,
        y: PLAYER_ROW,
        shots: vec![Shot::new(10, 5)],
        cooldown_ms: 0,
    };
    let mut inv = Invaders {
        army: vec![Invader { x: 10, y: 5 }],
        move_timer_ms: 0,
        threshold_ms: 1000,
        direction: space_invaders::invaders::Direction::Right,
    };
    assert!(p.detect_hits(&mut inv));
    assert_eq!(p.shots.len(), 0);
    assert_eq!(inv.army.len(), 0);
    assert!(inv.all_killed());
}

#[test]
fn no_match_removes_nothing() {
    let mut p = Player {
        x: 10,
        y: PLAYER_ROW,
        shots: vec![Shot::new(10, 5)],
        cooldown_ms: 0,
    };
    let mut inv = Invaders {
        army: vec![Invader { x: 11, y: 5 }],
        move_timer_ms: 0,
        threshold_ms: 1000,
        direction: space_invaders::invaders::Direction::Right,
    };
    assert!(!p.detect_hits(&mut inv));
    assert_eq!(p.shots.len(), 1);
    assert_eq!(inv.army.len(), 1);
}

#[test]
fn one_pass_resolves_two_simultaneous_hits() {
    let mut p = Player {
        x: 10,
        y: PLAYER_ROW,
        shots: vec![Shot::new(10, 5), Shot::new(12, 7)],
        cooldown_ms: 0,
    };
    let mut inv = Invaders {
        army: vec![Invader { x: 12, y: 7 }, Invader { x: 10, y: 5 }, Invader { x: 3, y: 3 }],
        move_timer_ms: 0,
        threshold_ms: 1000,
        direction: space_invaders::invaders::Direction::Right,
    };
    assert!(p.detect_hits(&mut inv));
    assert_eq!(p.shots.len(), 0);
    assert_eq!(inv.army.len(), 1);
    assert_eq!(inv.army[0], Invader { x: 3, y: 3 });
}
