//! The predator: each wolf re-evaluates its target on a think timer, eats
//! the nearest sheep when close enough, then sleeps for a while that shrinks
//! as the difficulty clock runs, and otherwise steers toward its prey.

use vstd::prelude::*;

use crate::collision::{all_in_world, MAX_AGENTS};
use crate::timer::{Timer, TIME_LIMIT_MS};
use crate::vec2::{
    dist_floor, div_trunc, isqrt_spec, lemma_isqrt_bounds, lemma_tdiv_close, tdiv, Vec2,
    COORD_LIMIT,
};

verus! {

/// The think interval of a hungry wolf, in milliseconds.
pub const THINK_INTERVAL_HUNGRY_MS: u64 = 500;

/// The post-meal sleep at difficulty zero, in milliseconds.
pub const SLEEP_TIME_INITIAL_MS: u64 = 1_000;

/// The elapsed time at which the sleep has halved, in milliseconds.
pub const SLEEP_HALF_TIME_MS: u64 = 60_000;

/// A wolf eats the nearest sheep when the floor of their distance is under
/// this range.
pub const EAT_RANGE: u64 = 16;

/// Pursuit speed bounds, in units per second.
pub const INITIAL_SPEED: i64 = 100;
pub const MAX_SPEED: i64 = 100;

/// The elapsed time at which the pursuit speed curve has halved.
pub const SPEED_HALF_TIME_MS: u64 = 60_000;

/// A new wolf may spawn each time this interval elapses, population cap
/// permitting.
pub const WOLF_SPAWN_INTERVAL_MS: u64 = 5_000;

/// The difficulty clock accepted by the curves below, in milliseconds
/// (about thirty years of play).
pub const ELAPSED_LIMIT_MS: u64 = 1_000_000_000_000;

/// The wolf's mind: a weak reference to its prey, revalidated on every use,
/// and the think timer.
#[derive(Clone, Copy, PartialEq, Eq, Structural, Debug)]
pub struct WolfMind {
    pub prey: Option<u64>,
    pub time_left: Timer,
}

impl WolfMind {
    pub open spec fn wf(self) -> bool {
        self.time_left.wf() && self.time_left.repeating
    }

    /// A fresh wolf: no prey, thinking at the hungry interval.
    pub fn new() -> (r: WolfMind)
        ensures
            r == (WolfMind {
                prey: None::<u64>,
                time_left: Timer {
                    duration_ms: THINK_INTERVAL_HUNGRY_MS,
                    elapsed_ms: 0,
                    repeating: true,
                    just_finished: false,
                },
            }),
            r.wf(),
    {
        WolfMind { prey: None, time_left: Timer::new_repeating(THINK_INTERVAL_HUNGRY_MS) }
    }
}

/// The wolf population cap: one wolf, plus one for each full square-root
/// step of the difficulty clock in tens of seconds.
pub open spec fn max_wolves_spec(elapsed_ms: u64) -> int {
    1 + isqrt_spec((elapsed_ms / 10_000) as nat) as int
}

pub fn max_wolves(elapsed_ms: u64) -> (r: usize)
    requires
        elapsed_ms <= ELAPSED_LIMIT_MS,
    ensures
        r == max_wolves_spec(elapsed_ms),
{
    let steps = elapsed_ms / 10_000;
    let root = crate::vec2::isqrt(steps);
    proof {
        lemma_isqrt_bounds(steps as nat);
        assert(isqrt_spec(steps as nat) * isqrt_spec(steps as nat) <= steps);
        assert(root <= 10_000) by (nonlinear_arith)
            requires
                root * root <= steps,
                steps <= 100_000_000,
                root >= 0,
        ;
    }
    1 + root as usize
}

/// The post-meal sleep in milliseconds: the initial sleep shrunk by the
/// factor `1 + elapsed / half_time`, computed exactly as
/// `initial * half / (half + elapsed)`.
pub open spec fn sleep_time_spec(elapsed_ms: u64) -> int {
    (SLEEP_TIME_INITIAL_MS * SLEEP_HALF_TIME_MS) as int / (SLEEP_HALF_TIME_MS + elapsed_ms) as int
}

pub fn sleep_time(elapsed_ms: u64) -> (r: u64)
    requires
        elapsed_ms <= ELAPSED_LIMIT_MS,
    ensures
        r == sleep_time_spec(elapsed_ms),
        r <= SLEEP_TIME_INITIAL_MS,
{
    let num = SLEEP_TIME_INITIAL_MS * SLEEP_HALF_TIME_MS;
    let den = SLEEP_HALF_TIME_MS + elapsed_ms;
    proof {
        assert(num / den <= SLEEP_TIME_INITIAL_MS) by (nonlinear_arith)
            requires
                num == SLEEP_TIME_INITIAL_MS * SLEEP_HALF_TIME_MS,
                den >= SLEEP_HALF_TIME_MS,
                SLEEP_HALF_TIME_MS >= 1,
        ;
    }
    num / den
}

/// The sleep never grows with the difficulty clock; and as an exact
/// fraction `initial * half / (half + elapsed)` it strictly decreases: for
/// `e1 < e2` the cross-multiplied comparison of the two fractions is strict.
pub proof fn lemma_sleep_time_decreasing(e1: u64, e2: u64)
    requires
        e1 < e2,
    ensures
        sleep_time_spec(e2) <= sleep_time_spec(e1),
        (SLEEP_TIME_INITIAL_MS * SLEEP_HALF_TIME_MS) as int * (SLEEP_HALF_TIME_MS + e1 as int)
            < (SLEEP_TIME_INITIAL_MS * SLEEP_HALF_TIME_MS) as int * (SLEEP_HALF_TIME_MS
            + e2 as int),
{
    let num = (SLEEP_TIME_INITIAL_MS * SLEEP_HALF_TIME_MS) as int;
    assert(num * (SLEEP_HALF_TIME_MS + e1 as int) < num * (SLEEP_HALF_TIME_MS + e2 as int))
        by (nonlinear_arith)
        requires
            e1 < e2,
            num == 60_000_000,
    ;
    assert(num / (SLEEP_HALF_TIME_MS + e2 as int) <= num / (SLEEP_HALF_TIME_MS + e1 as int))
        by (nonlinear_arith)
        requires
            0 < SLEEP_HALF_TIME_MS + e1 as int <= SLEEP_HALF_TIME_MS + e2 as int,
            num >= 0,
    ;
}

/// The sleep approaches zero: past one point of the clock it is under any
/// positive bound (with the previous lemma, it tends to zero).
pub proof fn lemma_sleep_time_vanishes(bound: u64, elapsed_ms: u64)
    requires
        1 <= bound,
        elapsed_ms >= 60_000_000,
    ensures
        sleep_time_spec(elapsed_ms) < bound,
{
    assert(60_000_000int / (SLEEP_HALF_TIME_MS + elapsed_ms) as int == 0) by (nonlinear_arith)
        requires
            SLEEP_HALF_TIME_MS + elapsed_ms as int > 60_000_000,
    ;
}

/// The pursuit speed: rises from the initial speed toward the maximum along
/// `max - initial / (1 + elapsed / half)`, clamped into the speed bounds.
pub open spec fn pursuit_speed_spec(elapsed_ms: u64) -> int {
    let raw = MAX_SPEED - (INITIAL_SPEED * SPEED_HALF_TIME_MS) as int / (SPEED_HALF_TIME_MS
        + elapsed_ms) as int;
    if raw < INITIAL_SPEED {
        INITIAL_SPEED as int
    } else if raw > MAX_SPEED {
        MAX_SPEED as int
    } else {
        raw
    }
}

pub fn pursuit_speed(elapsed_ms: u64) -> (r: i64)
    requires
        elapsed_ms <= ELAPSED_LIMIT_MS,
    ensures
        r == pursuit_speed_spec(elapsed_ms),
        INITIAL_SPEED <= r <= MAX_SPEED,
{
    let num: u64 = (INITIAL_SPEED as u64) * SPEED_HALF_TIME_MS;
    let den: u64 = SPEED_HALF_TIME_MS + elapsed_ms;
    let q = num / den;
    proof {
        assert(q <= 100_000_000) by (nonlinear_arith)
            requires
                q == num as int / den as int,
                num == 6_000_000,
                den >= 1,
        ;
    }
    let raw: i64 = MAX_SPEED - (q as i64);
    if raw < INITIAL_SPEED {
        INITIAL_SPEED
    } else if raw > MAX_SPEED {
        MAX_SPEED
    } else {
        raw
    }
}

/// The nearest sheep to the wolf among the first `m`, compared by the floor
/// of the distance (ties keep the first); `-1` when there are none.
pub open spec fn nearest_upto(wolf: Vec2, s: Seq<Vec2>, m: int) -> int
    decreases m,
{
    if m <= 0 {
        -1
    } else {
        let prev = nearest_upto(wolf, s, m - 1);
        let j = m - 1;
        if prev == -1 || dist_floor(wolf, s[j]) < dist_floor(wolf, s[prev]) {
            j
        } else {
            prev
        }
    }
}

/// The nearest sheep over the whole flock.
pub open spec fn nearest_sheep_spec(wolf: Vec2, s: Seq<Vec2>) -> int {
    nearest_upto(wolf, s, s.len() as int)
}

proof fn lemma_nearest_upto_props(wolf: Vec2, s: Seq<Vec2>, m: int)
    requires
        0 <= m <= s.len(),
    ensures
        m == 0 ==> nearest_upto(wolf, s, m) == -1,
        m > 0 ==> 0 <= nearest_upto(wolf, s, m) < m,
    decreases m,
{
    if m > 0 {
        lemma_nearest_upto_props(wolf, s, m - 1);
    }
}

/// Find the nearest sheep by scanning the flock.
pub fn nearest_sheep(wolf: Vec2, positions: &Vec<Vec2>) -> (r: Option<usize>)
    requires
        wolf.abs_le(COORD_LIMIT as int),
        all_in_world(positions@),
        positions@.len() <= MAX_AGENTS,
    ensures
        positions@.len() == 0 ==> r is None,
        positions@.len() > 0 ==> r == Some(nearest_sheep_spec(wolf, positions@) as usize),
{
    let ghost s = positions@;
    let n = positions.len();
    if n == 0 {
        return None;
    }
    let mut best: usize = 0;
    let mut best_d: u64 = wolf.sub(positions[0]).length_floor();
    let mut j: usize = 1;
    proof {
        lemma_nearest_upto_props(wolf, s, 1);
    }
    while j < n
        invariant
            positions@ == s,
            n == s.len(),
            all_in_world(s),
            n <= MAX_AGENTS,
            wolf.abs_le(COORD_LIMIT as int),
            1 <= j <= n,
            best == nearest_upto(wolf, s, j as int),
            best < j,
            best_d == dist_floor(wolf, s[best as int]),
        decreases n - j,
    {
        let d = wolf.sub(positions[j]).length_floor();
        if d < best_d {
            best = j;
            best_d = d;
        }
        j += 1;
    }
    Some(best)
}

/// The nearest-sheep index is a valid index of a non-empty flock.
pub proof fn lemma_nearest_in_range(wolf: Vec2, s: Seq<Vec2>)
    requires
        s.len() > 0,
    ensures
        0 <= nearest_sheep_spec(wolf, s) < s.len(),
{
    lemma_nearest_upto_props(wolf, s, s.len() as int);
}

/// A resolved handle is a valid index carrying that handle.
pub proof fn lemma_find_id_in_range(ids: Seq<u64>, id: u64)
    ensures
        find_id_spec(ids, id) == -1 || (0 <= find_id_spec(ids, id) < ids.len() && ids[find_id_spec(
            ids,
            id,
        )] == id),
{
    lemma_find_id_props(ids, id, ids.len() as int);
}

/// What one wolf step reports back to the world.
#[derive(Clone, Copy, PartialEq, Eq, Structural, Debug)]
pub struct WolfStep {
    /// The index of the sheep this wolf ate, if any.
    pub ate: Option<usize>,
    /// Whether the eaten sheep was the human-controlled one.
    pub game_over: bool,
}

/// One think-and-eat step for one wolf. The think timer advances; the
/// nearest sheep (by the floor of the distance, the human undistinguished)
/// is found fresh; within the eat range it is eaten — the prey reference is
/// cleared and the timer restarts with the difficulty-scaled sleep — and
/// otherwise, exactly when the timer fired, the wolf retargets the nearest
/// sheep and thinks at the hungry interval again. A wolf whose timer did
/// not fire and who ate nothing keeps its prey, whatever sheep stand where.
pub fn think_eat_one(
    wolf: &mut WolfMind,
    wolf_pos: Vec2,
    ids: &Vec<u64>,
    positions: &Vec<Vec2>,
    human: &Vec<bool>,
    elapsed_ms: u64,
    dt: u64,
) -> (r: WolfStep)
    requires
        old(wolf).wf(),
        wolf_pos.abs_le(COORD_LIMIT as int),
        all_in_world(positions@),
        ids@.len() == positions@.len(),
        human@.len() == positions@.len(),
        positions@.len() <= MAX_AGENTS,
        elapsed_ms <= ELAPSED_LIMIT_MS,
        dt <= TIME_LIMIT_MS,
    ensures
        final(wolf).wf(),
        ({
            let t = old(wolf).time_left.tick_spec(dt);
            let j = nearest_sheep_spec(wolf_pos, positions@);
            if positions@.len() == 0 {
                *final(wolf) == (WolfMind { prey: old(wolf).prey, time_left: t }) && r == (
                WolfStep { ate: None::<usize>, game_over: false })
            } else if dist_floor(wolf_pos, positions@[j]) < EAT_RANGE {
                &&& r == (WolfStep { ate: Some(j as usize), game_over: human@[j] })
                &&& final(wolf).prey is None
                &&& final(wolf).time_left == t.restarted_spec(sleep_time_spec(elapsed_ms) as u64)
            } else if t.just_finished {
                &&& r == (WolfStep { ate: None::<usize>, game_over: false })
                &&& final(wolf).prey == Some(ids@[j])
                &&& final(wolf).time_left == (Timer { duration_ms: THINK_INTERVAL_HUNGRY_MS, ..t })
            } else {
                &&& r == (WolfStep { ate: None::<usize>, game_over: false })
                &&& *final(wolf) == (WolfMind { prey: old(wolf).prey, time_left: t })
            }
        }),
{
    wolf.time_left.tick(dt);
    let found = nearest_sheep(wolf_pos, positions);
    match found {
        None => WolfStep { ate: None, game_over: false },
        Some(j) => {
            proof {
                lemma_nearest_upto_props(wolf_pos, positions@, positions@.len() as int);
            }
            let d = wolf_pos.sub(positions[j]).length_floor();
            if d < EAT_RANGE {
                wolf.prey = None;
                let sleep = sleep_time(elapsed_ms);
                wolf.time_left.restart(sleep);
                WolfStep { ate: Some(j), game_over: human[j] }
            } else if wolf.time_left.just_finished {
                wolf.time_left.set_duration(THINK_INTERVAL_HUNGRY_MS);
                wolf.prey = Some(ids[j]);
                WolfStep { ate: None, game_over: false }
            } else {
                WolfStep { ate: None, game_over: false }
            }
        },
    }
}

/// The first index carrying the given sheep handle, or `-1`: stale handles
/// (the sheep has been eaten) resolve to nothing.
pub open spec fn find_id_upto(ids: Seq<u64>, id: u64, m: int) -> int
    decreases m,
{
    if m <= 0 {
        -1
    } else {
        let prev = find_id_upto(ids, id, m - 1);
        if prev != -1 {
            prev
        } else if ids[m - 1] == id {
            m - 1
        } else {
            -1
        }
    }
}

pub open spec fn find_id_spec(ids: Seq<u64>, id: u64) -> int {
    find_id_upto(ids, id, ids.len() as int)
}

proof fn lemma_find_id_props(ids: Seq<u64>, id: u64, m: int)
    requires
        0 <= m <= ids.len(),
    ensures
        find_id_upto(ids, id, m) == -1 || (0 <= find_id_upto(ids, id, m) < m && ids[find_id_upto(
            ids,
            id,
            m,
        )] == id),
    decreases m,
{
    if m > 0 {
        lemma_find_id_props(ids, id, m - 1);
    }
}

/// Resolve a sheep handle to its index in the flock.
pub fn find_id(ids: &Vec<u64>, id: u64) -> (r: Option<usize>)
    requires
        ids@.len() <= MAX_AGENTS,
    ensures
        find_id_spec(ids@, id) == -1 ==> r is None,
        find_id_spec(ids@, id) != -1 ==> r == Some(find_id_spec(ids@, id) as usize),
{
    let mut j: usize = 0;
    while j < ids.len()
        invariant
            j <= ids@.len(),
            ids@.len() <= MAX_AGENTS,
            find_id_upto(ids@, id, j as int) == -1,
        decreases ids@.len() - j,
    {
        if ids[j] == id {
            proof {
                lemma_find_id_stable(ids@, id, j as int + 1, ids@.len() as int);
            }
            return Some(j);
        }
        j += 1;
    }
    None
}

/// Once a match is found at the scan frontier it stays the answer.
proof fn lemma_find_id_stable(ids: Seq<u64>, id: u64, m: int, n: int)
    requires
        0 < m <= n <= ids.len(),
        find_id_upto(ids, id, m) != -1,
    ensures
        find_id_upto(ids, id, n) == find_id_upto(ids, id, m),
    decreases n - m,
{
    if m < n {
        lemma_find_id_stable(ids, id, m + 1, n);
    }
}

/// The displacement of one frame of pursuit: the difficulty-scaled speed
/// along the unit direction toward the prey, over `dt` milliseconds.
pub open spec fn hunt_delta(pos: Vec2, target: Vec2, elapsed_ms: u64, dt: u64) -> Vec2 {
    let v = target.sub_spec(pos);
    let len = isqrt_spec(v.norm_sq() as nat) as int;
    if len == 0 {
        Vec2 { x: 0, y: 0 }
    } else {
        let c = pursuit_speed_spec(elapsed_ms) * dt;
        Vec2 {
            x: tdiv(c * v.x, 1000 * len) as i64,
            y: tdiv(c * v.y, 1000 * len) as i64,
        }
    }
}

/// One frame of pursuit toward a live prey position. The displacement per
/// axis never exceeds `dt / 5` units (the pursuit speed never exceeds a
/// fifth of a unit per millisecond).
pub fn hunt_toward(pos: Vec2, target: Vec2, elapsed_ms: u64, dt: u64) -> (r: Vec2)
    requires
        pos.abs_le(COORD_LIMIT as int),
        target.abs_le(COORD_LIMIT as int),
        elapsed_ms <= ELAPSED_LIMIT_MS,
        dt <= 60_000,
    ensures
        r == pos.add_spec(hunt_delta(pos, target, elapsed_ms, dt)),
        hunt_delta(pos, target, elapsed_ms, dt).abs_le(dt as int / 5 + 1),
        r.abs_le(COORD_LIMIT as int + dt as int / 5 + 1),
{
    let v = target.sub(pos);
    let len = v.length_floor();
    if len == 0 {
        pos
    } else {
        let speed = pursuit_speed(elapsed_ms);
        proof {
            assert(v.x * v.x + v.y * v.y >= 0) by (nonlinear_arith);
            lemma_isqrt_bounds(v.norm_sq() as nat);
            assert(1 <= len <= 3_000_000_000u64 && -(len as int) <= v.x <= len as int && -(
            len as int) <= v.y <= len as int) by (nonlinear_arith)
                requires
                    len * len <= v.norm_sq() < (len + 1) * (len + 1),
                    v.norm_sq() == v.x * v.x + v.y * v.y,
                    -2_000_000_000 <= v.x <= 2_000_000_000,
                    -2_000_000_000 <= v.y <= 2_000_000_000,
                    len >= 1,
            ;
            assert(0 <= speed * dt <= 6_000_000 && -(30_000_000_000_000_000int) <= speed * dt
                * v.x <= 30_000_000_000_000_000int && -(30_000_000_000_000_000int) <= speed * dt
                * v.y <= 30_000_000_000_000_000int) by (nonlinear_arith)
                requires
                    100 <= speed <= 100,
                    0 <= dt <= 60_000,
                    -3_000_000_001 <= v.x <= 3_000_000_001,
                    -3_000_000_001 <= v.y <= 3_000_000_001,
            ;
        }
        let c: i64 = speed * (dt as i64);
        let den: i64 = 1000 * (len as i64);
        proof {
            assert(1000 <= den) by (nonlinear_arith)
                requires
                    den == 1000 * len,
                    1 <= len,
            ;
        }
        let dx = div_trunc(c * v.x, den);
        let dy = div_trunc(c * v.y, den);
        proof {
            lemma_tdiv_close(c as int * v.x, den as int);
            lemma_tdiv_close(c as int * v.y, den as int);
            assert(-(dt as int / 5 + 1) <= dx <= dt as int / 5 + 1 && -(dt as int / 5 + 1) <= dy
                <= dt as int / 5 + 1) by (nonlinear_arith)
                requires
                    -(den - 1) <= den * dx - c * v.x <= den - 1,
                    -(den - 1) <= den * dy - c * v.y <= den - 1,
                    den == 1000 * len,
                    1 <= len,
                    -(len as int) <= v.x <= len as int,
                    -(len as int) <= v.y <= len as int,
                    c == speed * dt,
                    speed == 100,
                    0 <= dt <= 60_000,
            ;
        }
        Vec2 { x: pos.x + dx, y: pos.y + dy }
    }
}

} // verus!
