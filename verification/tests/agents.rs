use flock_core::bleat::{
    contagion_pair, Bled, RecentBleat, PLAYER_BLEAT_DELAY_MS, SHEEP_BLEAT_DELAY_MS,
    TIME_TO_SPREAD_MS,
};
use flock_core::mind::{SheepMind, State};
use flock_core::timer::Timer;
use flock_core::vec2::Vec2;
use flock_core::wolf::{
    max_wolves, pursuit_speed, sleep_time, WolfMind, EAT_RANGE, THINK_INTERVAL_HUNGRY_MS,
};
use flock_core::world::{
    edge_position, input_intent, Gait, SheepAgent, WolfAgent, World, GAME_HEIGHT, GAME_WIDTH,
};

fn v(x: i64, y: i64) -> Vec2 {
    Vec2 { x, y }
}

fn flocking_sheep(id: u64, pos: Vec2) -> SheepAgent {
    SheepAgent {
        id,
        pos,
        gait: Gait::Flocking {
            mind: SheepMind { state: State::Idle, cycle: Timer::new_repeating(500) },
        },
        social: RecentBleat::new(),
        controlled: false,
    }
}

// The sleep curve: initial / (1 + elapsed / half_time), decreasing toward
// zero as the clock runs.
#[test]
fn sleep_time_curve_values() {
    assert_eq!(sleep_time(0), 1_000);
    assert_eq!(sleep_time(60_000), 500);
    assert_eq!(sleep_time(90_000), 400);
    let mut last = sleep_time(0);
    for e in [1_000u64, 10_000, 60_000, 300_000, 3_600_000] {
        let s = sleep_time(e);
        assert!(s <= last);
        last = s;
    }
    assert_eq!(sleep_time(60_000_000), 0);
}

#[test]
fn pursuit_speed_is_clamped_into_its_bounds() {
    assert_eq!(pursuit_speed(0), 100);
    assert_eq!(pursuit_speed(60_000), 100);
    assert_eq!(pursuit_speed(1_000_000), 100);
}

// The wolf population cap at ninety seconds: 1 + floor(sqrt(9)).
#[test]
fn wolf_cap_at_ninety_seconds_is_four() {
    assert_eq!(max_wolves(0), 1);
    assert_eq!(max_wolves(90_000), 4);
    assert_eq!(max_wolves(10_000), 2);
    assert_eq!(max_wolves(9_999), 1);
}

#[test]
fn fresh_social_state_may_bleat_at_once() {
    let b = RecentBleat::new();
    assert!(b.time_to_bleat.is_finished());
    assert!(!b.time_to_spread.just_finished);
}

#[test]
fn bleat_cooldown_depends_on_trigger_source() {
    let mut b = RecentBleat::new();
    assert!(b.player_bleat());
    assert_eq!(b.time_to_bleat.duration_ms, PLAYER_BLEAT_DELAY_MS);
    assert_eq!(b.time_to_bleat.elapsed_ms, 0);
    assert_eq!(b.time_to_spread.duration_ms, TIME_TO_SPREAD_MS);
    assert_eq!(b.time_to_spread.elapsed_ms, 0);
    // blocked until the cooldown runs out
    assert!(!b.player_bleat());
    let mut c = RecentBleat::new();
    assert!(c.spontaneous_bleat(true, false));
    assert_eq!(c.time_to_bleat.duration_ms, SHEEP_BLEAT_DELAY_MS);
}

#[test]
fn spontaneous_bleat_needs_the_roll() {
    let mut b = RecentBleat::new();
    assert!(!b.spontaneous_bleat(false, false));
    assert!(b.time_to_bleat.is_finished());
}

fn spread_ready() -> RecentBleat {
    // a sheep whose spread window just opened this tick
    RecentBleat {
        time_to_bleat: Timer {
            duration_ms: SHEEP_BLEAT_DELAY_MS,
            elapsed_ms: 0,
            repeating: false,
            just_finished: false,
        },
        time_to_spread: Timer {
            duration_ms: TIME_TO_SPREAD_MS,
            elapsed_ms: TIME_TO_SPREAD_MS,
            repeating: false,
            just_finished: true,
        },
    }
}

// Contagion: the spreader's window just opened, the receiver is free, the
// roll hits: the receiver bleats with the AI cooldown.
#[test]
fn contagion_passes_to_the_free_side() {
    let mut b1 = spread_ready();
    let mut b2 = RecentBleat::new();
    let r = contagion_pair(&mut b1, &mut b2, false, false, true, true);
    assert_eq!(r, Bled::Second);
    assert_eq!(b1, spread_ready());
    assert_eq!(b2.time_to_bleat.duration_ms, SHEEP_BLEAT_DELAY_MS);
    assert_eq!(b2.time_to_bleat.elapsed_ms, 0);
}

#[test]
fn contagion_needs_the_roll() {
    let mut b1 = spread_ready();
    let mut b2 = RecentBleat::new();
    let r = contagion_pair(&mut b1, &mut b2, false, false, false, false);
    assert_eq!(r, Bled::Nobody);
    assert_eq!(b2, RecentBleat::new());
}

// At most one outcome per pair per tick: when both sides qualify, the
// first-checked side wins.
#[test]
fn contagion_fires_at_most_once_per_pair() {
    let mut b1 = spread_ready();
    b1.time_to_bleat = Timer::new_once(0);
    let mut b2 = spread_ready();
    b2.time_to_bleat = Timer::new_once(0);
    let r = contagion_pair(&mut b1, &mut b2, false, false, true, true);
    assert_eq!(r, Bled::Second);
    // the first side did not bleat
    assert!(b1.time_to_bleat.is_finished());
}

// A wolf with a sheep at one unit under the eat range eats it within one
// tick: the sheep is gone, the prey reference clears, and the think timer
// restarts with the difficulty-scaled sleep.
#[test]
fn wolf_eats_adjacent_sheep_and_sleeps() {
    let mut w = World::new();
    w.elapsed_ms = 90_000;
    let dist = (EAT_RANGE - 1) as i64;
    w.sheep.push(flocking_sheep(0, v(dist, 0)));
    w.wolves.push(WolfAgent { pos: v(0, 0), mind: WolfMind::new() });
    w.wolves[0].mind.prey = Some(0);
    let step = w.wolf_think_step(0, 16);
    assert_eq!(step.ate, Some(0));
    assert!(!step.game_over);
    assert_eq!(w.sheep.len(), 0);
    assert_eq!(w.wolves[0].mind.prey, None);
    assert_eq!(w.wolves[0].mind.time_left.duration_ms, sleep_time(90_000));
    assert_eq!(w.wolves[0].mind.time_left.elapsed_ms, 0);
    assert!(!w.game_over);
}

// Eating the human-controlled sheep ends the session.
#[test]
fn eating_the_human_ends_the_session() {
    let mut w = World::new();
    w.sheep.push(flocking_sheep(0, v(5, 0)));
    w.sheep[0].controlled = true;
    w.wolves.push(WolfAgent { pos: v(0, 0), mind: WolfMind::new() });
    let step = w.wolf_think_step(0, 16);
    assert_eq!(step.ate, Some(0));
    assert!(step.game_over);
    assert!(w.game_over);
}

// A wolf whose think timer has not elapsed keeps its prey reference, even
// though a strictly closer sheep has appeared.
#[test]
fn wolf_keeps_prey_until_the_timer_fires() {
    let mut w = World::new();
    w.sheep.push(flocking_sheep(0, v(100, 0)));
    w.sheep.push(flocking_sheep(1, v(50, 0)));
    w.wolves.push(WolfAgent { pos: v(0, 0), mind: WolfMind::new() });
    w.wolves[0].mind.prey = Some(0);
    // 10 ms into a 500 ms think interval: no retargeting
    let step = w.wolf_think_step(0, 10);
    assert_eq!(step.ate, None);
    assert_eq!(w.wolves[0].mind.prey, Some(0));
    // once the timer fires, the wolf retargets the nearest sheep
    let step = w.wolf_think_step(0, 490);
    assert_eq!(step.ate, None);
    assert_eq!(w.wolves[0].mind.prey, Some(1));
    assert_eq!(w.wolves[0].mind.time_left.duration_ms, THINK_INTERVAL_HUNGRY_MS);
}

// A wolf thinking over an empty flock skips the tick: nothing to target,
// nothing to eat, no fault.
#[test]
fn wolf_with_no_sheep_skips_the_tick() {
    let mut w = World::new();
    w.wolves.push(WolfAgent { pos: v(0, 0), mind: WolfMind::new() });
    w.wolves[0].mind.prey = Some(3);
    let step = w.wolf_think_step(0, 600);
    assert_eq!(step.ate, None);
    assert!(!step.game_over);
    assert_eq!(w.wolves[0].mind.prey, Some(3));
    assert!(!w.game_over);
}

// Pursuit: one second of hunting at the initial speed covers a hundred
// units straight toward the prey.
#[test]
fn wolf_hunts_straight_toward_its_prey() {
    let mut w = World::new();
    w.sheep.push(flocking_sheep(7, v(200, 0)));
    w.wolves.push(WolfAgent { pos: v(0, 0), mind: WolfMind::new() });
    w.wolves[0].mind.prey = Some(7);
    w.wolf_hunt_step(0, 1_000);
    assert_eq!(w.wolves[0].pos, v(100, 0));
}

// A stale prey reference (the sheep is gone) clears without error.
#[test]
fn stale_prey_reference_clears() {
    let mut w = World::new();
    w.wolves.push(WolfAgent { pos: v(0, 0), mind: WolfMind::new() });
    w.wolves[0].mind.prey = Some(42);
    w.wolf_hunt_step(0, 16);
    assert_eq!(w.wolves[0].mind.prey, None);
    assert_eq!(w.wolves[0].pos, v(0, 0));
}

// The wolf spawner respects its interval and the difficulty cap.
#[test]
fn wolf_spawner_respects_the_cap() {
    let mut w = World::new();
    w.wolf_spawn_step(5_000);
    assert_eq!(w.wolves.len(), 1);
    // the cap at difficulty zero is one wolf
    w.wolf_spawn_step(5_000);
    assert_eq!(w.wolves.len(), 1);
    w.elapsed_ms = 10_000;
    w.wolf_spawn_step(5_000);
    assert_eq!(w.wolves.len(), 2);
}

// The respawner refills the flock with edge newcomers walking inward.
#[test]
fn respawner_adds_edge_newcomer() {
    let mut w = World::new();
    w.respawn_step(1_620);
    assert_eq!(w.sheep.len(), 1);
    assert_eq!(w.sheep[0].id, 0);
    assert_eq!(w.next_id, 1);
    assert!(matches!(w.sheep[0].gait, Gait::FromEdge { .. }));
    // short of the interval nothing happens
    w.respawn_step(100);
    assert_eq!(w.sheep.len(), 1);
}

// An edge newcomer walks inward and converts to a full flocking sheep once
// in bounds.
#[test]
fn edge_newcomer_is_promoted_in_bounds() {
    let mut w = World::new();
    w.sheep.push(SheepAgent {
        id: 0,
        pos: v(0, GAME_HEIGHT / 2 + 20),
        gait: Gait::FromEdge { dir: v(0, -1) },
        social: RecentBleat::new(),
        controlled: false,
    });
    w.edge_walk_step(1_000);
    assert_eq!(w.sheep[0].pos, v(0, 80));
    match &w.sheep[0].gait {
        Gait::Flocking { mind } => {
            assert!(matches!(mind.state, State::Idle));
            assert!((400..600).contains(&mind.cycle.duration_ms));
        }
        _ => panic!("expected a promoted flocking sheep"),
    }
}

// Control reassignment: the marker lands on exactly one sheep.
#[test]
fn control_marker_is_never_duplicated() {
    let mut w = World::new();
    for i in 0..3 {
        w.sheep.push(flocking_sheep(i, v(i as i64 * 100, 0)));
    }
    w.sheep[2].controlled = true;
    assert!(w.choose_human_step());
    let count = w.sheep.iter().filter(|s| s.controlled).count();
    assert_eq!(count, 1);
}

#[test]
fn choose_human_skips_an_empty_flock() {
    let mut w = World::new();
    assert!(!w.choose_human_step());
}

// The score is a monotonic counter.
#[test]
fn score_counts_up_and_resets_with_the_session() {
    let mut w = World::new();
    w.feed_human();
    w.feed_human();
    assert_eq!(w.score, 2);
    w.game_over = true;
    w.elapsed_ms = 1_000;
    w.reset_session();
    assert_eq!(w.score, 0);
    assert_eq!(w.elapsed_ms, 0);
    assert!(!w.game_over);
}

// The intent vector from key flags: unit axes, normalized diagonals.
#[test]
fn input_intent_normalizes_diagonals() {
    assert_eq!(input_intent(false, false, false, false), v(0, 0));
    assert_eq!(input_intent(true, false, false, false), v(0, 1000));
    assert_eq!(input_intent(false, false, true, false), v(-1000, 0));
    assert_eq!(input_intent(true, false, false, true), v(707, 707));
    assert_eq!(input_intent(false, true, true, false), v(-707, -707));
    assert_eq!(input_intent(true, true, false, false), v(0, 0));
}

// The human override moves the controlled sheep by intent at the fixed
// speed; nobody else.
#[test]
fn human_override_moves_only_the_controlled_sheep() {
    let mut w = World::new();
    w.sheep.push(flocking_sheep(0, v(0, 0)));
    w.sheep.push(flocking_sheep(1, v(50, 0)));
    w.sheep[0].controlled = true;
    w.human_walk_step(v(1000, 0), 1_000);
    assert_eq!(w.sheep[0].pos, v(100, 0));
    assert_eq!(w.sheep[1].pos, v(50, 0));
}

// Movement integration: at the cycle midpoint the eased speed is the full
// stored speed.
#[test]
fn walk_moves_at_full_speed_at_midcycle() {
    let mut w = World::new();
    w.sheep.push(SheepAgent {
        id: 0,
        pos: v(0, 0),
        gait: Gait::Flocking {
            mind: SheepMind {
                state: State::Moving { goal: v(100, 0), speed: 100 },
                cycle: Timer {
                    duration_ms: 400,
                    elapsed_ms: 200,
                    repeating: true,
                    just_finished: false,
                },
            },
        },
        social: RecentBleat::new(),
        controlled: false,
    });
    w.walk_step(1_000);
    assert_eq!(w.sheep[0].pos, v(100, 0));
}

#[test]
fn edge_positions_ring_the_map() {
    let (p, d) = edge_position(0);
    assert_eq!(p, v(-GAME_WIDTH / 2, GAME_HEIGHT / 2 + 20));
    assert_eq!(d, v(0, -1));
    let (p, d) = edge_position(GAME_WIDTH);
    assert_eq!(p, v(GAME_WIDTH / 2 + 20, -GAME_HEIGHT / 2));
    assert_eq!(d, v(-1, 0));
    assert!(World::in_bounds(v(300, 140)));
    assert!(!World::in_bounds(v(301, 140)));
    assert!(!World::in_bounds(v(300, 141)));
}

// One whole frame in the fixed order, starting from a small scripted flock:
// the session survives, timers advance, and the flock stays together.
#[test]
fn one_frame_runs_all_systems_in_order() {
    let mut w = World::new();
    for i in 0..4 {
        w.add_sheep(v(i as i64 * 30, 0));
    }
    w.wolves.push(WolfAgent { pos: v(500, 500), mind: WolfMind::new() });
    let dt = 16;
    w.collision_step();
    w.think_step(dt);
    w.walk_step(dt);
    w.human_walk_step(v(0, 0), dt);
    w.edge_walk_step(dt);
    w.bleat_tick_step(dt);
    w.spread_step();
    w.spontaneous_step(dt);
    let n_wolves = w.wolves.len();
    for i in 0..n_wolves {
        w.wolf_think_step(i, dt);
        w.wolf_hunt_step(i, dt);
    }
    w.difficulty_step(dt);
    w.wolf_spawn_step(dt);
    w.respawn_step(dt);
    w.jump_step(dt);
    assert_eq!(w.sheep.len(), 4);
    assert_eq!(w.elapsed_ms, 16);
    assert!(!w.game_over);
}
