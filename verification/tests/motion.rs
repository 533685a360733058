use flock_core::collision::{collision, COLLISION_DISTANCE};
use flock_core::mind::{
    sort_neighbors, speed_from_time, SheepMind, State, FLEE_SPEED, FLOCK_SPEED,
};
use flock_core::timer::Timer;
use flock_core::vec2::{div_trunc, isqrt, Vec2};

fn v(x: i64, y: i64) -> Vec2 {
    Vec2 { x, y }
}

#[test]
fn isqrt_exact_values() {
    assert_eq!(isqrt(0), 0);
    assert_eq!(isqrt(1), 1);
    assert_eq!(isqrt(24), 4);
    assert_eq!(isqrt(25), 5);
    assert_eq!(isqrt(26), 5);
    assert_eq!(isqrt(u64::MAX), 4294967295);
}

#[test]
fn length_floor_is_three_four_five() {
    assert_eq!(v(3, 4).length_floor(), 5);
    assert_eq!(v(-3, -4).length_floor(), 5);
    assert_eq!(v(10, 0).length_floor(), 10);
    assert_eq!(v(1, 1).length_floor(), 1);
}

#[test]
fn div_trunc_rounds_toward_zero() {
    assert_eq!(div_trunc(7, 2), 3);
    assert_eq!(div_trunc(-7, 2), -3);
    assert_eq!(div_trunc(-35, 2), -17);
}

#[test]
fn timer_once_finishes_and_stays() {
    let mut t = Timer::new_once(100);
    assert!(!t.is_finished());
    t.tick(250);
    assert!(t.is_finished());
    assert!(t.just_finished);
    assert_eq!(t.elapsed_ms, 100);
    t.tick(10);
    assert!(t.is_finished());
    assert!(!t.just_finished);
}

#[test]
fn timer_repeating_wraps() {
    let mut t = Timer::new_repeating(100);
    t.tick(250);
    assert!(t.just_finished);
    assert_eq!(t.elapsed_ms, 50);
    t.tick(20);
    assert!(!t.just_finished);
    assert_eq!(t.elapsed_ms, 70);
}

// The easing parabola is zero at the ends of the cycle and peaks at its
// midpoint.
#[test]
fn speed_factor_endpoints_and_peak() {
    assert_eq!(speed_from_time(0, 400), 0);
    assert_eq!(speed_from_time(400, 400), 0);
    assert_eq!(speed_from_time(200, 400), 1000);
    assert_eq!(speed_from_time(100, 400), 750);
    let peak = speed_from_time(200, 400);
    for e in 0..=400 {
        assert!(speed_from_time(e, 400) <= peak);
    }
}

// Two sheep closer than the collision distance are pushed directly apart
// along their axis, each by the missing distance.
#[test]
fn resolver_pushes_overlapping_pair_apart() {
    assert_eq!(COLLISION_DISTANCE, 25);
    let mut positions = vec![v(0, 0), v(10, 0)];
    collision(&mut positions);
    assert_eq!(positions[0], v(-15, 0));
    assert_eq!(positions[1], v(25, 0));
    // still on the original axis, and no longer overlapping
    let dist = positions[1].x - positions[0].x;
    assert_eq!(dist, 40);
    assert!(dist >= COLLISION_DISTANCE - 3);
}

// A configuration with no overlaps is a fixed point: a second pass adds no
// displacement.
#[test]
fn resolver_is_idempotent_on_resolved_flock() {
    let start = vec![v(0, 0), v(100, 0), v(0, 100), v(-60, -80)];
    let mut once = start.clone();
    collision(&mut once);
    assert_eq!(once, start);
    let mut twice = once.clone();
    collision(&mut twice);
    assert_eq!(twice, once);
}

#[test]
fn resolver_leaves_lone_sheep_alone() {
    let mut positions = vec![v(7, -3)];
    collision(&mut positions);
    assert_eq!(positions, vec![v(7, -3)]);
}

#[test]
fn sorting_orders_neighbours_ascending() {
    let ns = vec![v(40, 0), v(10, 0), v(30, 0), v(20, 0)];
    let sorted = sort_neighbors(&ns);
    assert_eq!(sorted, vec![v(10, 0), v(20, 0), v(30, 0), v(40, 0)]);
}

// An observation of nobody concludes in standing still.
#[test]
fn conclude_with_no_neighbours_stands_still() {
    let mind = SheepMind {
        state: State::Observing { neighbors: vec![] },
        cycle: Timer::new_repeating(500),
    };
    let out = mind.conclude_from_observation();
    match out.state {
        State::Moving { goal, speed } => {
            assert_eq!(goal, v(0, 0));
            assert_eq!(speed, 0);
        }
        _ => panic!("expected a moving state"),
    }
}

// A nearest neighbour under the collision distance triggers the flee
// reflex: the goal is the exact negation of its vector, at the flee speed.
#[test]
fn conclude_flees_nearest_overlapping_neighbour() {
    let mind = SheepMind {
        state: State::Observing { neighbors: vec![v(40, 0), v(10, 0), v(30, 0)] },
        cycle: Timer::new_repeating(500),
    };
    let out = mind.conclude_from_observation();
    match out.state {
        State::Moving { goal, speed } => {
            assert_eq!(goal, v(-10, 0));
            assert_eq!(speed, FLEE_SPEED);
        }
        _ => panic!("expected a moving state"),
    }
}

// Without an overlap, the goal averages mild repulsion (inside the avoid
// range) and cohesion, over at most the four nearest neighbours.
#[test]
fn conclude_averages_repulsion_and_cohesion() {
    let mind = SheepMind {
        state: State::Observing { neighbors: vec![v(30, 0), v(40, 0)] },
        cycle: Timer::new_repeating(500),
    };
    let out = mind.conclude_from_observation();
    match out.state {
        State::Moving { goal, speed } => {
            // both within the avoid range: (-15 - 20) / 2, truncated
            assert_eq!(goal, v(-17, 0));
            assert_eq!(speed, FLOCK_SPEED);
        }
        _ => panic!("expected a moving state"),
    }
}

// Five sheep standing in a line ten units apart: the sheep at one end
// gathers exactly four neighbour vectors; sorted ascending, the nearest is
// ten units away and under the collision distance, so it flees it.
#[test]
fn end_of_line_sheep_gathers_four_and_flees() {
    let mind = SheepMind { state: State::Idle, cycle: Timer::new_repeating(500) };
    let mind = mind.tick_cycle(500);
    // the cycle fired: idle went observing
    let mind = mind
        .observe(v(40, 0))
        .observe(v(10, 0))
        .observe(v(30, 0))
        .observe(v(20, 0));
    match &mind.state {
        State::Observing { neighbors } => {
            assert_eq!(neighbors.len(), 4);
            let sorted = sort_neighbors(neighbors);
            for w in sorted.windows(2) {
                assert!(w[0].length_floor() <= w[1].length_floor());
            }
        }
        _ => panic!("expected an observing state"),
    }
    let out = mind.conclude_from_observation();
    match out.state {
        State::Moving { goal, speed } => {
            assert_eq!(goal, v(-10, 0));
            assert_eq!(speed, FLEE_SPEED);
        }
        _ => panic!("expected a moving state"),
    }
}

// A mind still observing when its cycle fires is a defect, reset to idle.
#[test]
fn stuck_observer_resets_to_idle() {
    let mind = SheepMind {
        state: State::Observing { neighbors: vec![v(10, 0)] },
        cycle: Timer::new_repeating(100),
    };
    let out = mind.tick_cycle(150);
    assert!(matches!(out.state, State::Idle));
}

// A fresh idle mind draws its cycle length uniformly from [400, 600); a
// draw out of that window would mean the randomness wrapper handed back
// something else than a value below its bound.
#[test]
fn new_idle_mind_cycle_is_in_window() {
    for _ in 0..100 {
        let mind = SheepMind::new_idle();
        assert!(matches!(mind.state, State::Idle));
        assert!((400..600).contains(&mind.cycle.duration_ms));
    }
}
