use invaders::invaders::{Direction, Invader, Invaders};
use invaders::player::Player;
use invaders::shot::Shot;
use invaders::timer::Timer;
use invaders::{NUM_COLS, NUM_ROWS};

#[test]
fn player_starts_centered_on_the_bottom_row() {
    let player = Player::new();
    assert_eq!(player.x, NUM_COLS / 2);
    assert_eq!(player.y, NUM_ROWS - 1);
    assert_eq!(player.shots.len(), 0);
}

#[test]
fn player_movement_clamps_at_the_walls() {
    let mut player = Player::new();
    for _ in 0..NUM_COLS {
        player.move_right();
    }
    assert_eq!(player.x, NUM_COLS - 1);
    player.move_right();
    assert_eq!(player.x, NUM_COLS - 1);
    for _ in 0..NUM_COLS {
        player.move_left();
    }
    assert_eq!(player.x, 0);
    player.move_left();
    assert_eq!(player.x, 0);
    assert_eq!(player.y, NUM_ROWS - 1);
}

#[test]
fn fire_from_start_spawns_above_and_caps_at_two() {
    // On the 20 x 10 grid the player starts at (10, 9).
    let mut player = Player::new();
    assert!(player.shoot());
    assert_eq!(player.shots.len(), 1);
    assert_eq!(player.shots[0].x, 10);
    assert_eq!(player.shots[0].y, 8);
    assert!(!player.shots[0].exploding);
    // The second shot in the same tick still succeeds; only then is the cap hit.
    assert!(player.shoot());
    assert_eq!(player.shots.len(), 2);
    assert!(!player.shoot());
    assert_eq!(player.shots.len(), 2);
}

#[test]
fn cap_holds_under_rapid_fire() {
    let mut player = Player::new();
    for _ in 0..20 {
        player.shoot();
        assert!(player.shots.len() <= 2);
    }
    assert_eq!(player.shots.len(), 2);
}

#[test]
fn shot_travels_one_row_per_countdown() {
    let mut player = Player::new();
    assert!(player.shoot());
    player.update(49);
    assert_eq!(player.shots[0].y, 8);
    player.update(1);
    assert_eq!(player.shots[0].y, 7);
    player.update(50);
    assert_eq!(player.shots[0].y, 6);
}

#[test]
fn shot_is_purged_at_the_top_of_the_grid() {
    let mut player = Player::new();
    assert!(player.shoot());
    for _ in 0..7 {
        player.update(50);
    }
    assert_eq!(player.shots.len(), 1);
    assert_eq!(player.shots[0].y, 1);
    player.update(50);
    assert_eq!(player.shots.len(), 0);
    // With the slot free again, firing succeeds.
    assert!(player.shoot());
}

#[test]
fn hit_explodes_shot_and_removes_one_invader() {
    let mut formation = Invaders {
        army: vec![Invader { x: 4, y: 4 }, Invader { x: 6, y: 6 }],
        move_timer: Timer::from_millis(2000),
        direction: Direction::Right,
    };
    let mut player = Player {
        x: NUM_COLS / 2,
        y: NUM_ROWS - 1,
        shots: vec![Shot::new(4, 4), Shot::new(6, 6)],
    };
    // Both shots sit on live invaders, but only the first hit is resolved.
    assert!(player.detect_hits(&mut formation));
    assert_eq!(formation.army.len(), 1);
    assert_eq!(formation.army[0], Invader { x: 6, y: 6 });
    assert!(player.shots[0].exploding);
    assert!(!player.shots[1].exploding);
    // The next tick resolves the remaining coincidence.
    assert!(player.detect_hits(&mut formation));
    assert_eq!(formation.army.len(), 0);
    assert!(player.shots[1].exploding);
}

#[test]
fn exploding_shot_cannot_score_again() {
    let mut formation = Invaders {
        army: vec![Invader { x: 4, y: 4 }],
        move_timer: Timer::from_millis(2000),
        direction: Direction::Right,
    };
    let mut shot = Shot::new(4, 4);
    shot.explode();
    let mut player = Player { x: 0, y: NUM_ROWS - 1, shots: vec![shot] };
    assert!(!player.detect_hits(&mut formation));
    assert_eq!(formation.army.len(), 1);
}

#[test]
fn miss_changes_nothing() {
    let mut formation = Invaders::new();
    let before = formation.army.len();
    let mut player = Player::new();
    // An odd column never holds a lattice unit, so this shot cannot hit.
    player.move_right();
    assert_eq!(player.x, 11);
    assert!(player.shoot());
    assert!(!player.detect_hits(&mut formation));
    assert_eq!(formation.army.len(), before);
    assert_eq!(player.shots.len(), 1);
    assert!(!player.shots[0].exploding);
}

#[test]
fn exploded_shot_lingers_then_expires() {
    let mut formation = Invaders {
        army: vec![Invader { x: 4, y: 4 }],
        move_timer: Timer::from_millis(2000),
        direction: Direction::Right,
    };
    let mut player = Player {
        x: NUM_COLS / 2,
        y: NUM_ROWS - 1,
        shots: vec![Shot::new(4, 4)],
    };
    assert!(player.detect_hits(&mut formation));
    assert!(player.shots[0].exploding);
    // While exploding the shot stays put instead of travelling.
    player.update(100);
    assert_eq!(player.shots.len(), 1);
    assert_eq!(player.shots[0].y, 4);
    // Once the explosion countdown lapses the shot is purged.
    player.update(150);
    assert_eq!(player.shots.len(), 0);
}

#[test]
fn full_round_trip_from_fire_to_kill() {
    let mut formation = Invaders::new();
    let mut player = Player::new();
    // Walk under the rightmost column of the lattice: x = 16.
    for _ in 0..6 {
        player.move_right();
    }
    assert_eq!(player.x, 16);
    assert!(player.shoot());
    let before = formation.army.len();
    // The shot leaves its spawn row before the first collision pass, so the
    // first lattice unit it meets on the way up sits at (16, 6).
    let mut hits = 0;
    for _ in 0..10 {
        player.update(50);
        if player.detect_hits(&mut formation) {
            hits += 1;
        }
    }
    assert_eq!(hits, 1);
    assert_eq!(formation.army.len(), before - 1);
    assert!(!formation.army.iter().any(|u| u.x == 16 && u.y == 6));
    assert!(formation.army.iter().any(|u| u.x == 16 && u.y == 8));
}
