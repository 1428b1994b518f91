use invaders::invaders::{Direction, Invader, Invaders};
use invaders::timer::Timer;
use invaders::{NUM_COLS, NUM_ROWS};

fn lattice_position(x: usize, y: usize) -> bool {
    x > 1 && x < NUM_COLS - 2 && y > 0 && y < 9 && x % 2 == 0 && y % 2 == 0
}

#[test]
fn initial_formation_is_even_lattice() {
    let formation = Invaders::new();
    for unit in formation.army.iter() {
        assert!(lattice_position(unit.x, unit.y));
    }
    for x in 0..NUM_COLS {
        for y in 0..NUM_ROWS {
            let present = formation.army.iter().any(|u| u.x == x && u.y == y);
            assert_eq!(present, lattice_position(x, y));
        }
    }
    // 8 even columns in 2..=16, 4 even rows in 2..=8.
    assert_eq!(formation.army.len(), 32);
}

#[test]
fn initial_formation_is_deterministic() {
    let a = Invaders::new();
    let b = Invaders::new();
    assert_eq!(a.army.len(), b.army.len());
    for (u, v) in a.army.iter().zip(b.army.iter()) {
        assert_eq!(u, v);
    }
}

#[test]
fn initial_direction_and_countdown() {
    let formation = Invaders::new();
    assert_eq!(formation.direction, Direction::Right);
    assert_eq!(formation.move_timer.duration_ms, 2000);
    assert_eq!(formation.move_timer.time_left_ms, 2000);
    assert!(!formation.move_timer.ready);
}

#[test]
fn sub_threshold_tick_is_a_no_op() {
    let fresh = Invaders::new();
    let mut formation = Invaders::new();
    let moved = formation.update(1999);
    assert!(!moved);
    assert_eq!(formation.direction, Direction::Right);
    assert_eq!(formation.army.len(), fresh.army.len());
    for (u, v) in formation.army.iter().zip(fresh.army.iter()) {
        assert_eq!(u, v);
    }
    assert_eq!(formation.move_timer.time_left_ms, 1);
    assert!(!formation.move_timer.ready);
}

#[test]
fn lateral_tick_shifts_right_without_flip() {
    let fresh = Invaders::new();
    let mut formation = Invaders::new();
    let moved = formation.update(2000);
    assert!(moved);
    assert_eq!(formation.direction, Direction::Right);
    assert_eq!(formation.army.len(), fresh.army.len());
    for (u, v) in formation.army.iter().zip(fresh.army.iter()) {
        assert_eq!(u.x, v.x + 1);
        assert_eq!(u.y, v.y);
    }
    // A lateral move does not touch the speed ramp.
    assert_eq!(formation.move_timer.duration_ms, 2000);
    assert_eq!(formation.move_timer.time_left_ms, 2000);
}

#[test]
fn right_boundary_tick_flips_and_descends() {
    let mut formation = Invaders {
        army: vec![
            Invader { x: NUM_COLS - 1, y: 2 },
            Invader { x: NUM_COLS - 3, y: 4 },
        ],
        move_timer: Timer::from_millis(2000),
        direction: Direction::Right,
    };
    let moved = formation.update(2000);
    assert!(moved);
    assert_eq!(formation.direction, Direction::Left);
    assert_eq!(formation.army.len(), 2);
    assert_eq!(formation.army[0], Invader { x: NUM_COLS - 1, y: 3 });
    assert_eq!(formation.army[1], Invader { x: NUM_COLS - 3, y: 5 });
    // The descent shortens the countdown by 250 ms.
    assert_eq!(formation.move_timer.duration_ms, 1750);
    assert_eq!(formation.move_timer.time_left_ms, 1750);
}

#[test]
fn left_boundary_tick_flips_and_descends() {
    let mut formation = Invaders {
        army: vec![Invader { x: 0, y: 2 }],
        move_timer: Timer::from_millis(2000),
        direction: Direction::Left,
    };
    let moved = formation.update(2000);
    assert!(moved);
    assert_eq!(formation.direction, Direction::Right);
    assert_eq!(formation.army[0], Invader { x: 0, y: 3 });
    assert_eq!(formation.move_timer.duration_ms, 1750);
}

#[test]
fn speed_ramp_floors_at_minimum() {
    let mut formation = Invaders {
        army: vec![Invader { x: 0, y: 2 }],
        move_timer: Timer::from_millis(400),
        direction: Direction::Left,
    };
    assert!(formation.update(400));
    // max(400 - 250, 250) floors at 250.
    assert_eq!(formation.move_timer.duration_ms, 250);

    let mut again = Invaders {
        army: vec![Invader { x: 0, y: 4 }],
        move_timer: Timer::from_millis(250),
        direction: Direction::Left,
    };
    assert!(again.update(250));
    assert_eq!(again.move_timer.duration_ms, 250);
}

#[test]
fn speed_ramp_is_monotonic_over_a_round() {
    let mut formation = Invaders::new();
    let mut last_duration = formation.move_timer.duration_ms;
    while !formation.reached_bottom() {
        formation.update(formation.move_timer.time_left_ms);
        assert!(formation.move_timer.duration_ms <= last_duration);
        assert!(formation.move_timer.duration_ms >= 250);
        last_duration = formation.move_timer.duration_ms;
    }
}

#[test]
fn coordinates_stay_on_grid_over_a_round() {
    let mut formation = Invaders::new();
    while !formation.reached_bottom() {
        formation.update(formation.move_timer.time_left_ms);
        for unit in formation.army.iter() {
            assert!(unit.x < NUM_COLS);
            assert!(unit.y < NUM_ROWS);
        }
    }
}

#[test]
fn direction_flips_only_on_descent() {
    let mut formation = Invaders::new();
    while !formation.reached_bottom() {
        let before_direction = formation.direction;
        let before_rows: Vec<usize> = formation.army.iter().map(|u| u.y).collect();
        let moved = formation.update(formation.move_timer.time_left_ms);
        assert!(moved);
        let descended = formation
            .army
            .iter()
            .map(|u| u.y)
            .zip(before_rows.iter())
            .all(|(after, before)| after == before + 1);
        if formation.direction != before_direction {
            assert!(descended);
        } else {
            assert!(!descended);
        }
    }
}

#[test]
fn empty_formation_is_all_killed_and_not_at_bottom() {
    let formation = Invaders {
        army: Vec::new(),
        move_timer: Timer::from_millis(2000),
        direction: Direction::Right,
    };
    assert!(formation.all_killed());
    assert!(!formation.reached_bottom());
}

#[test]
fn empty_formation_tick_follows_the_synthetic_extrema() {
    // With no units both extrema default to 0. Sweeping right, 0 is not the
    // right boundary, so the tick is a lateral move; sweeping left, 0 is the
    // left boundary, so the tick descends and flips.
    let mut rightward = Invaders {
        army: Vec::new(),
        move_timer: Timer::from_millis(2000),
        direction: Direction::Right,
    };
    assert!(rightward.update(2000));
    assert_eq!(rightward.direction, Direction::Right);
    assert_eq!(rightward.move_timer.duration_ms, 2000);

    let mut leftward = Invaders {
        army: Vec::new(),
        move_timer: Timer::from_millis(2000),
        direction: Direction::Left,
    };
    assert!(leftward.update(2000));
    assert_eq!(leftward.direction, Direction::Right);
    assert_eq!(leftward.move_timer.duration_ms, 1750);
}

#[test]
fn all_killed_iff_no_units_remain() {
    let mut formation = Invaders::new();
    assert!(!formation.all_killed());
    let units: Vec<Invader> = formation.army.clone();
    for unit in units.iter() {
        assert!(!formation.all_killed());
        assert!(formation.kill_invader_at(unit.x, unit.y));
    }
    assert!(formation.all_killed());
    assert_eq!(formation.army.len(), 0);
}

#[test]
fn kill_invader_at_removes_only_an_exact_match() {
    let mut formation = Invaders::new();
    let before = formation.army.len();
    assert!(!formation.kill_invader_at(0, 0));
    assert_eq!(formation.army.len(), before);
    assert!(formation.kill_invader_at(2, 2));
    assert_eq!(formation.army.len(), before - 1);
    assert!(!formation.kill_invader_at(2, 2));
    assert_eq!(formation.army.len(), before - 1);
}

#[test]
fn reached_bottom_when_a_unit_is_on_the_last_row() {
    let formation = Invaders {
        army: vec![Invader { x: 4, y: NUM_ROWS - 1 }],
        move_timer: Timer::from_millis(2000),
        direction: Direction::Right,
    };
    assert!(formation.reached_bottom());
}

#[test]
fn countdown_freshness_toggles_past_halfway() {
    let mut timer = Timer::from_millis(2000);
    assert!(timer.is_fresh());
    timer.update(999);
    assert!(timer.is_fresh());
    timer.update(101);
    assert!(!timer.is_fresh());
}
