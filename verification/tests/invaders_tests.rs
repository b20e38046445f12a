use space_invaders::NUM_COLS;
use space_invaders::NUM_ROWS;
use space_invaders::invaders::Direction;
use space_invaders::invaders::Invader;
use space_invaders::invaders::Invaders;
use space_invaders::invaders::MOVE_MIN_MS;
use space_invaders::invaders::MOVE_PER_INVADER_MS;
use space_invaders::player::PLAYER_ROW;

#[test]
fn fresh_swarm_has_the_full_formation() {
    let inv = Invaders::new();
    // 28 columns (even, clear of both walls) by 4 rows (even, under row 9).
    assert_eq!(inv.army.len(), 112);
    assert_eq!(inv.direction, Direction::Right);
    assert_eq!(inv.move_timer_ms, 0);
    assert_eq!(inv.threshold_ms, MOVE_MIN_MS + 112 * MOVE_PER_INVADER_MS);
    for invader in &inv.army {
        assert!(invader.x > 1 && invader.x < NUM_COLS - 2);
        assert!(invader.y > 0 && invader.y < 9);
        assert_eq!(invader.x % 2, 0);
        assert_eq!(invader.y % 2, 0);
    }
}

#[test]
fn update_short_of_the_threshold_does_not_step() {
    let mut inv = Invaders::new();
    let threshold = inv.threshold_ms;
    assert!(!inv.update(threshold - 1));
    assert_eq!(inv.move_timer_ms, threshold - 1);
    assert!(inv.update(1));
    assert_eq!(inv.move_timer_ms, 0);
}

#[test]
fn cadence_speeds_up_as_the_swarm_thins() {
    let mut inv = Invaders::new();
    let full_threshold = inv.threshold_ms;
    assert!(inv.kill_invader_at(2, 2));
    // The step time is recomputed at the next step, from the smaller count.
    assert!(inv.update(full_threshold));
    assert_eq!(inv.threshold_ms, MOVE_MIN_MS + 111 * MOVE_PER_INVADER_MS);
    assert!(inv.threshold_ms < full_threshold);
}

#[test]
fn a_lone_invader_still_steps() {
    let mut inv = Invaders {
        army: vec![Invader { x: 5, y: 5 }],
        move_timer_ms: 0,
        threshold_ms: MOVE_MIN_MS + MOVE_PER_INVADER_MS,
        direction: Direction::Right,
    };
    assert!(inv.update(inv.threshold_ms));
    assert_eq!(inv.army[0], Invader { x: 6, y: 5 });
}

#[test]
fn direction_flips_exactly_at_the_wall() {
    let mut inv = Invaders {
        army: vec![Invader { x: NUM_COLS - 2, y: 5 }],
        move_timer_ms: 0,
        threshold_ms: 100,
        direction: Direction::Right,
    };
    // One column short of the wall: a plain sideways step, no flip.
    assert!(inv.update(100));
    assert_eq!(inv.direction, Direction::Right);
    assert_eq!(inv.army[0], Invader { x: NUM_COLS - 1, y: 5 });
    // At the wall: the direction flips and the step is a pure descent.
    // (After the first step the step time was recomputed for one invader.)
    assert_eq!(inv.threshold_ms, MOVE_MIN_MS + MOVE_PER_INVADER_MS);
    assert!(inv.update(inv.threshold_ms));
    assert_eq!(inv.direction, Direction::Left);
    assert_eq!(inv.army[0], Invader { x: NUM_COLS - 1, y: 6 });
    // Away from the wall again: marching left, same row.
    assert!(inv.update(inv.threshold_ms));
    assert_eq!(inv.direction, Direction::Left);
    assert_eq!(inv.army[0], Invader { x: NUM_COLS - 2, y: 6 });
}

#[test]
fn a_flip_descends_every_invader_once() {
    let mut inv = Invaders {
        army: vec![
            Invader { x: 0, y: 3 },
            Invader { x: 4, y: 5 },
            Invader { x: 8, y: 7 },
        ],
        move_timer_ms: 0,
        threshold_ms: 100,
        direction: Direction::Left,
    };
    assert!(inv.update(100));
    assert_eq!(inv.direction, Direction::Right);
    assert_eq!(
        inv.army,
        vec![
            Invader { x: 0, y: 4 },
            Invader { x: 4, y: 6 },
            Invader { x: 8, y: 8 },
        ]
    );
}

#[test]
fn all_killed_iff_no_invader_is_left() {
    let mut inv = Invaders {
        army: vec![Invader { x: 7, y: 7 }],
        move_timer_ms: 0,
        threshold_ms: 100,
        direction: Direction::Right,
    };
    assert!(!inv.all_killed());
    assert!(inv.kill_invader_at(7, 7));
    assert!(inv.all_killed());
}

#[test]
fn reached_bottom_iff_some_invader_is_on_the_player_row() {
    let above = Invaders {
        army: vec![Invader { x: 7, y: PLAYER_ROW - 1 }],
        move_timer_ms: 0,
        threshold_ms: 100,
        direction: Direction::Right,
    };
    assert!(!above.reached_bottom());
    let arrived = Invaders {
        army: vec![Invader { x: 7, y: PLAYER_ROW }],
        move_timer_ms: 0,
        threshold_ms: 100,
        direction: Direction::Right,
    };
    assert!(arrived.reached_bottom());
    assert!(PLAYER_ROW == NUM_ROWS - 1);
}

#[test]
fn kill_removes_only_the_first_match() {
    let mut inv = Invaders {
        army: vec![Invader { x: 4, y: 4 }, Invader { x: 4, y: 4 }],
        move_timer_ms: 5,
        threshold_ms: 100,
        direction: Direction::Left,
    };
    assert!(inv.kill_invader_at(4, 4));
    assert_eq!(inv.army.len(), 1);
    assert!(!inv.kill_invader_at(9, 9));
    assert_eq!(inv.army.len(), 1);
    assert_eq!(inv.move_timer_ms, 5);
    assert_eq!(inv.direction, Direction::Left);
}
