//! The sheep mind: a timer-driven state machine (idle, observing, moving).
//! Each cycle the mind advances; an observing mind gathers the relative
//! positions of every flock mate in range, then concludes a movement goal:
//! flee the nearest neighbour when it is closer than the collision distance,
//! otherwise average mild repulsion and cohesion over the nearest few.

use vstd::prelude::*;

use crate::collision::COLLISION_DISTANCE;
use crate::rng::rand_below;
use crate::timer::{Timer, TIME_LIMIT_MS};
use crate::vec2::{
    div_trunc, isqrt_spec, lemma_isqrt_bounds, lemma_tdiv_close, tdiv, Vec2, COORD_LIMIT,
};

verus! {

/// A sheep observes flock mates out to this distance.
pub const RANGE: i64 = 150;

/// Neighbours within this distance contribute mild repulsion instead of
/// cohesion.
pub const AVOID_RANGE: i64 = 50;

/// An observing sheep weighs at most this many nearest neighbours.
pub const SHEEP_AWARENESS: usize = 4;

/// Speed of the flee reflex, in units per second.
pub const FLEE_SPEED: i64 = 150;

/// Speed of ordinary flocking movement, in units per second.
pub const FLOCK_SPEED: i64 = 100;

/// Bounds of the idle-cycle duration: uniform in `[CYCLE_MIN_MS, CYCLE_MAX_MS)`.
pub const CYCLE_MIN_MS: u64 = 400;
pub const CYCLE_MAX_MS: u64 = 600;

/// Movement goals and observed neighbour vectors stay within this bound.
pub const GOAL_LIMIT: i64 = 1_000_000;

/// Stored movement speeds stay within this bound.
pub const SPEED_LIMIT: i64 = 1_000;

pub enum State {
    Idle,
    Observing { neighbors: Vec<Vec2> },
    Moving { goal: Vec2, speed: i64 },
}

pub struct SheepMind {
    pub state: State,
    pub cycle: Timer,
}

impl State {
    pub open spec fn is_idle(self) -> bool {
        match self {
            State::Idle => true,
            _ => false,
        }
    }

    pub open spec fn is_observing(self) -> bool {
        match self {
            State::Observing { .. } => true,
            _ => false,
        }
    }

    pub open spec fn is_moving(self) -> bool {
        match self {
            State::Moving { .. } => true,
            _ => false,
        }
    }

    pub open spec fn neighbors_view(self) -> Seq<Vec2> {
        match self {
            State::Observing { neighbors } => neighbors@,
            _ => Seq::empty(),
        }
    }

    pub open spec fn goal_of(self) -> Vec2 {
        match self {
            State::Moving { goal, .. } => goal,
            _ => Vec2 { x: 0, y: 0 },
        }
    }

    pub open spec fn speed_of(self) -> i64 {
        match self {
            State::Moving { speed, .. } => speed,
            _ => 0,
        }
    }

    pub open spec fn wf(self) -> bool {
        match self {
            State::Idle => true,
            State::Observing { neighbors } => all_vecs_le(neighbors@, GOAL_LIMIT as int),
            State::Moving { goal, speed } => goal.abs_le(GOAL_LIMIT as int) && 0 <= speed
                <= SPEED_LIMIT,
        }
    }
}

/// Every vector of the sequence within `b` of zero on both axes.
pub open spec fn all_vecs_le(s: Seq<Vec2>, b: int) -> bool {
    forall|i: int| 0 <= i < s.len() ==> (#[trigger] s[i]).abs_le(b)
}

/// Ascending by squared length.
pub open spec fn sorted_by_norm(s: Seq<Vec2>) -> bool {
    forall|i: int, j: int| 0 <= i <= j < s.len() ==> s[i].norm_sq() <= s[j].norm_sq()
}

/// Insertion into a sorted sequence, after any neighbour of equal length
/// (the stable position).
pub open spec fn insert_by_norm(s: Seq<Vec2>, v: Vec2) -> Seq<Vec2>
    decreases s.len(),
{
    if s.len() == 0 {
        seq![v]
    } else if s.last().norm_sq() <= v.norm_sq() {
        s.push(v)
    } else {
        insert_by_norm(s.drop_last(), v).push(s.last())
    }
}

/// Stable insertion sort by squared length.
pub open spec fn sort_by_norm(s: Seq<Vec2>) -> Seq<Vec2>
    decreases s.len(),
{
    if s.len() == 0 {
        Seq::empty()
    } else {
        insert_by_norm(sort_by_norm(s.drop_last()), s.last())
    }
}

proof fn lemma_insert_by_norm_props(s: Seq<Vec2>, v: Vec2, b: int)
    requires
        sorted_by_norm(s),
        all_vecs_le(s, b),
        v.abs_le(b),
    ensures
        sorted_by_norm(insert_by_norm(s, v)),
        all_vecs_le(insert_by_norm(s, v), b),
        insert_by_norm(s, v).len() == s.len() + 1,
    decreases s.len(),
{
    if s.len() > 0 && s.last().norm_sq() > v.norm_sq() {
        assert(sorted_by_norm(s.drop_last())) by {
            assert(forall|i: int, j: int|
                0 <= i <= j < s.len() - 1 ==> s.drop_last()[i] == s[i] && s.drop_last()[j]
                    == s[j]);
        }
        lemma_insert_by_norm_props(s.drop_last(), v, b);
        let t = insert_by_norm(s.drop_last(), v);
        // everything in t is at most the dropped last element
        assert forall|i: int| 0 <= i < t.len() implies t[i].norm_sq()
            <= s.last().norm_sq() by {
            lemma_insert_by_norm_membership(s.drop_last(), v, i);
        }
    }
}

/// Each element of the inserted sequence is either `v` or an element of `s`.
proof fn lemma_insert_by_norm_membership(s: Seq<Vec2>, v: Vec2, i: int)
    requires
        0 <= i < insert_by_norm(s, v).len(),
    ensures
        insert_by_norm(s, v)[i] == v || exists|j: int|
            0 <= j < s.len() && s[j] == insert_by_norm(s, v)[i],
    decreases s.len(),
{
    if s.len() == 0 {
    } else if s.last().norm_sq() <= v.norm_sq() {
        assert(insert_by_norm(s, v) == s.push(v));
    } else {
        let t = insert_by_norm(s.drop_last(), v);
        if i < t.len() {
            lemma_insert_by_norm_membership(s.drop_last(), v, i);
        } else {
            assert(insert_by_norm(s, v)[i] == s.last());
        }
    }
}

pub proof fn lemma_sort_by_norm_props(s: Seq<Vec2>, b: int)
    requires
        all_vecs_le(s, b),
    ensures
        sorted_by_norm(sort_by_norm(s)),
        all_vecs_le(sort_by_norm(s), b),
        sort_by_norm(s).len() == s.len(),
    decreases s.len(),
{
    if s.len() > 0 {
        assert(all_vecs_le(s.drop_last(), b)) by {
            assert(forall|i: int| 0 <= i < s.len() - 1 ==> s.drop_last()[i] == s[i]);
        }
        lemma_sort_by_norm_props(s.drop_last(), b);
        lemma_insert_by_norm_props(sort_by_norm(s.drop_last()), s.last(), b);
    }
}

/// Inserting at the boundary position equals the recursive insertion.
proof fn lemma_insert_at(s: Seq<Vec2>, v: Vec2, k: int)
    requires
        0 <= k <= s.len(),
        forall|i: int| k <= i < s.len() ==> s[i].norm_sq() > v.norm_sq(),
        k > 0 ==> s[k - 1].norm_sq() <= v.norm_sq(),
    ensures
        insert_by_norm(s, v) == s.insert(k, v),
    decreases s.len(),
{
    if k == s.len() {
        if s.len() == 0 {
            assert(insert_by_norm(s, v) =~= s.insert(k, v));
        } else {
            assert(insert_by_norm(s, v) == s.push(v));
            assert(s.push(v) =~= s.insert(k, v));
        }
    } else {
        assert(s.last().norm_sq() > v.norm_sq());
        lemma_insert_at(s.drop_last(), v, k);
        assert(insert_by_norm(s, v) == insert_by_norm(s.drop_last(), v).push(s.last()));
        assert(s.drop_last().insert(k, v).push(s.last()) =~= s.insert(k, v));
    }
}

/// Insert one vector into a run kept ascending by squared length, at the
/// stable position.
fn insert_sorted(out: &mut Vec<Vec2>, v: Vec2)
    requires
        all_vecs_le(old(out)@, 2 * COORD_LIMIT as int),
        v.abs_le(2 * COORD_LIMIT as int),
    ensures
        final(out)@ == insert_by_norm(old(out)@, v),
{
    let ghost s = out@;
    let nv = v.norm_sq_e();
    let mut k = out.len();
    loop
        invariant
            out@ == s,
            all_vecs_le(s, 2 * COORD_LIMIT as int),
            v.abs_le(2 * COORD_LIMIT as int),
            nv == v.norm_sq(),
            k <= s.len(),
            forall|i: int| k <= i < s.len() ==> s[i].norm_sq() > v.norm_sq(),
        ensures
            out@ == s,
            k <= s.len(),
            forall|i: int| k <= i < s.len() ==> s[i].norm_sq() > v.norm_sq(),
            k > 0 ==> s[k - 1].norm_sq() <= v.norm_sq(),
        decreases k,
    {
        if k == 0 {
            break;
        }
        let prev = out[k - 1];
        if prev.norm_sq_e() <= nv {
            break;
        }
        k -= 1;
    }
    proof {
        lemma_insert_at(s, v, k as int);
    }
    out.insert(k, v);
}

/// Sort the gathered neighbour vectors ascending by squared length (stable).
pub fn sort_neighbors(ns: &Vec<Vec2>) -> (out: Vec<Vec2>)
    requires
        all_vecs_le(ns@, 2 * COORD_LIMIT as int),
    ensures
        out@ == sort_by_norm(ns@),
{
    let mut out: Vec<Vec2> = Vec::new();
    let mut i: usize = 0;
    while i < ns.len()
        invariant
            i <= ns@.len(),
            all_vecs_le(ns@, 2 * COORD_LIMIT as int),
            out@ == sort_by_norm(ns@.take(i as int)),
        decreases ns@.len() - i,
    {
        proof {
            assert(all_vecs_le(ns@.take(i as int), 2 * COORD_LIMIT as int)) by {
                assert(forall|j: int|
                    0 <= j < i ==> ns@.take(i as int)[j] == ns@[j]);
            }
            lemma_sort_by_norm_props(ns@.take(i as int), 2 * COORD_LIMIT as int);
            assert(ns@.take(i + 1).drop_last() =~= ns@.take(i as int));
            assert(ns@.take(i + 1).last() == ns@[i as int]);
        }
        insert_sorted(&mut out, ns[i]);
        i += 1;
    }
    proof {
        assert(ns@.take(ns@.len() as int) =~= ns@);
    }
    out
}

/// Everything of `s` appears in `insert_by_norm(s, v)`.
proof fn lemma_insert_by_norm_contains(s: Seq<Vec2>, v: Vec2, i: int)
    requires
        0 <= i < s.len(),
    ensures
        exists|j: int| 0 <= j < insert_by_norm(s, v).len() && insert_by_norm(s, v)[j] == s[i],
    decreases s.len(),
{
    let t = insert_by_norm(s, v);
    if s.len() == 0 {
    } else if s.last().norm_sq() <= v.norm_sq() {
        assert(t == s.push(v));
        assert(t[i] == s[i]);
    } else {
        if i < s.len() - 1 {
            lemma_insert_by_norm_contains(s.drop_last(), v, i);
            let j = choose|j: int|
                0 <= j < insert_by_norm(s.drop_last(), v).len() && insert_by_norm(
                    s.drop_last(),
                    v,
                )[j] == s.drop_last()[i];
            assert(t[j] == s[i]);
        } else {
            assert(t.last() == s.last());
        }
    }
}

/// Everything of `s` appears in `sort_by_norm(s)`.
proof fn lemma_sort_by_norm_contains(s: Seq<Vec2>, i: int)
    requires
        0 <= i < s.len(),
    ensures
        exists|j: int| 0 <= j < sort_by_norm(s).len() && sort_by_norm(s)[j] == s[i],
    decreases s.len(),
{
    if i < s.len() - 1 {
        assert(s.drop_last()[i] == s[i]);
        lemma_sort_by_norm_contains(s.drop_last(), i);
        let j = choose|j: int|
            0 <= j < sort_by_norm(s.drop_last()).len() && sort_by_norm(s.drop_last())[j]
                == s.drop_last()[i];
        lemma_insert_by_norm_contains(sort_by_norm(s.drop_last()), s.last(), j);
        assert(insert_by_norm(sort_by_norm(s.drop_last()), s.last()) == sort_by_norm(s));
    } else {
        assert(s.last() == s[i]);
        let t = sort_by_norm(s.drop_last());
        assert(insert_by_norm(t, s.last()) == sort_by_norm(s));
        lemma_insert_last_somewhere(t, s.last());
    }
}

/// The inserted element itself appears in the insertion.
proof fn lemma_insert_last_somewhere(s: Seq<Vec2>, v: Vec2)
    ensures
        exists|j: int| 0 <= j < insert_by_norm(s, v).len() && insert_by_norm(s, v)[j] == v,
    decreases s.len(),
{
    let t = insert_by_norm(s, v);
    if s.len() == 0 {
        assert(t[0] == v);
    } else if s.last().norm_sq() <= v.norm_sq() {
        assert(t == s.push(v));
        assert(t[s.len() as int] == v);
    } else {
        lemma_insert_last_somewhere(s.drop_last(), v);
        let j = choose|j: int|
            0 <= j < insert_by_norm(s.drop_last(), v).len() && insert_by_norm(
                s.drop_last(),
                v,
            )[j] == v;
        assert(t[j] == v);
    }
}

/// Every element of `sort_by_norm(s)` is an element of `s`.
proof fn lemma_sort_by_norm_membership(s: Seq<Vec2>, i: int)
    requires
        0 <= i < sort_by_norm(s).len(),
    ensures
        exists|j: int| 0 <= j < s.len() && s[j] == sort_by_norm(s)[i],
    decreases s.len(),
{
    if s.len() > 0 {
        let t = sort_by_norm(s.drop_last());
        lemma_insert_by_norm_membership(t, s.last(), i);
        let e = sort_by_norm(s)[i];
        if e != s.last() {
            if exists|j: int| 0 <= j < t.len() && t[j] == e {
                let j = choose|j: int| 0 <= j < t.len() && t[j] == e;
                lemma_sort_by_norm_membership(s.drop_last(), j);
            }
        } else {
            assert(s[s.len() - 1] == e);
        }
    }
}

/// The flee reflex takes priority: whenever the nearest observed neighbour
/// stands strictly closer than the collision distance, the concluded goal is
/// the exact negation of that neighbour's relative vector, at the flee
/// speed. The nearest neighbour here is the head of the sorted list: it is
/// one of the observed vectors, and no observed vector is shorter.
pub proof fn lemma_flee_priority(ns: Seq<Vec2>)
    requires
        ns.len() > 0,
        sort_by_norm(ns)[0].norm_sq() < COLLISION_DISTANCE * COLLISION_DISTANCE,
    ensures
        conclude_goal_speed(ns).0 == sort_by_norm(ns)[0].neg_spec(),
        conclude_goal_speed(ns).1 == FLEE_SPEED,
        exists|j: int| 0 <= j < ns.len() && ns[j] == sort_by_norm(ns)[0],
        forall|j: int|
            0 <= j < ns.len() ==> sort_by_norm(ns)[0].norm_sq() <= (#[trigger] ns[j]).norm_sq(),
{
    lemma_sort_by_norm_membership(ns, 0);
    assert forall|j: int|
        0 <= j < ns.len() implies sort_by_norm(ns)[0].norm_sq() <= (
    #[trigger] ns[j]).norm_sq() by {
        lemma_sort_by_norm_contains(ns, j);
        let i = choose|i: int| 0 <= i < sort_by_norm(ns).len() && sort_by_norm(ns)[i] == ns[j];
        assert(all_vecs_le(ns, 9_223_372_036_854_775_808int)) by {
            assert(forall|t: int|
                0 <= t < ns.len() ==> (#[trigger] ns[t]).abs_le(9_223_372_036_854_775_808int));
        }
        lemma_sort_by_norm_props(ns, 9_223_372_036_854_775_808int);
        assert(sort_by_norm(ns)[0].norm_sq() <= sort_by_norm(ns)[i].norm_sq());
    }
}

/// The contribution of one neighbour vector to the flocking goal: mild
/// repulsion (half the negated vector) inside the avoid range, cohesion (the
/// vector itself) beyond it.
pub open spec fn weight_of(v: Vec2) -> Vec2 {
    if v.norm_sq() <= AVOID_RANGE * AVOID_RANGE {
        Vec2 { x: tdiv(-v.x, 2) as i64, y: tdiv(-v.y, 2) as i64 }
    } else {
        v
    }
}

/// Componentwise sum of the contributions of the first `m` vectors.
pub open spec fn sum_weights(s: Seq<Vec2>, m: int) -> (int, int)
    decreases m,
{
    if m <= 0 {
        (0, 0)
    } else {
        let p = sum_weights(s, m - 1);
        (p.0 + weight_of(s[m - 1]).x, p.1 + weight_of(s[m - 1]).y)
    }
}

/// A neighbour contribution is no larger than the neighbour vector itself.
proof fn lemma_weight_le(v: Vec2)
    requires
        v.abs_le(GOAL_LIMIT as int),
    ensures
        weight_of(v).abs_le(GOAL_LIMIT as int),
{
    if v.norm_sq() <= AVOID_RANGE * AVOID_RANGE {
        lemma_tdiv_close(-v.x as int, 2);
        lemma_tdiv_close(-v.y as int, 2);
    }
}

/// The summed contributions of `m` bounded vectors stay within `m` bounds.
proof fn lemma_sum_weights_bound(s: Seq<Vec2>, m: int)
    requires
        all_vecs_le(s, GOAL_LIMIT as int),
        0 <= m <= s.len(),
    ensures
        -m * (GOAL_LIMIT as int) <= sum_weights(s, m).0 <= m * (GOAL_LIMIT as int),
        -m * (GOAL_LIMIT as int) <= sum_weights(s, m).1 <= m * (GOAL_LIMIT as int),
    decreases m,
{
    if m > 0 {
        lemma_sum_weights_bound(s, m - 1);
        lemma_weight_le(s[m - 1]);
    }
}

/// The movement goal and speed concluded from a gathered neighbour list:
/// stand still with no neighbour; flee the nearest at the flee speed when it
/// is under the collision distance; otherwise average the contributions of
/// the nearest `SHEEP_AWARENESS` neighbours at the flock speed.
pub open spec fn conclude_goal_speed(ns: Seq<Vec2>) -> (Vec2, i64) {
    let sorted = sort_by_norm(ns);
    if ns.len() == 0 {
        (Vec2 { x: 0, y: 0 }, 0)
    } else if sorted[0].norm_sq() < COLLISION_DISTANCE * COLLISION_DISTANCE {
        (sorted[0].neg_spec(), FLEE_SPEED)
    } else {
        let count = if ns.len() < SHEEP_AWARENESS { ns.len() as int } else {
            SHEEP_AWARENESS as int
        };
        let sums = sum_weights(sorted, count);
        (Vec2 { x: tdiv(sums.0, count) as i64, y: tdiv(sums.1, count) as i64 }, FLOCK_SPEED)
    }
}

/// The state after `conclude_from_observation`: only an observing mind
/// changes, and it always comes out moving.
pub open spec fn concluded(pre: SheepMind, post: SheepMind) -> bool {
    &&& post.cycle == pre.cycle
    &&& if pre.state.is_observing() {
        &&& post.state.is_moving()
        &&& post.state.goal_of() == conclude_goal_speed(pre.state.neighbors_view()).0
        &&& post.state.speed_of() == conclude_goal_speed(pre.state.neighbors_view()).1
    } else {
        post.state == pre.state
    }
}

/// A state that has just concluded the observation `ns`.
pub open spec fn moving_from(st: State, ns: Seq<Vec2>) -> bool {
    &&& st.is_moving()
    &&& st.goal_of() == conclude_goal_speed(ns).0
    &&& st.speed_of() == conclude_goal_speed(ns).1
}

/// What one whole think pass does to one mind, given the neighbour vectors
/// `obs` that the pair scan hands an observing mind this tick: the cycle
/// timer advances; on the tick it wraps, a moving mind goes idle, an idle
/// mind starts observing (and concludes the same tick), and a mind still
/// observing is a sequencing defect, reset to idle; a mind already observing
/// keeps its gathered neighbours, adds `obs`, and concludes.
pub open spec fn mind_think_post(pre: SheepMind, post: SheepMind, obs: Seq<Vec2>, dt: u64) -> bool {
    let t = pre.cycle.tick_spec(dt);
    &&& post.cycle == t
    &&& if t.just_finished {
        match pre.state {
            State::Moving { .. } => post.state.is_idle(),
            State::Idle => moving_from(post.state, obs),
            State::Observing { .. } => post.state.is_idle(),
        }
    } else {
        match pre.state {
            State::Observing { neighbors } => moving_from(post.state, neighbors@ + obs),
            _ => post.state == pre.state,
        }
    }
}

/// Per-frame deltas accepted by the movement rules, in milliseconds.
pub const WALK_DT_LIMIT: u64 = 60_000;

/// The movement-easing factor in permille: `4 t (1 - t)` with
/// `t = elapsed / duration`, zero at the ends of the cycle and greatest at
/// its midpoint.
pub open spec fn speed_factor_spec(elapsed_ms: u64, duration_ms: u64) -> int {
    if duration_ms == 0 || elapsed_ms > duration_ms {
        0
    } else {
        4000 * elapsed_ms * (duration_ms - elapsed_ms) / (duration_ms * duration_ms)
    }
}

/// The easing factor applied to a stored speed, in permille.
pub fn speed_from_time(elapsed_ms: u64, duration_ms: u64) -> (f: u64)
    requires
        1 <= duration_ms <= TIME_LIMIT_MS,
        elapsed_ms <= duration_ms,
    ensures
        f == speed_factor_spec(elapsed_ms, duration_ms),
        f <= 1000,
{
    let e = elapsed_ms as u128;
    let dur = duration_ms as u128;
    proof {
        assert(4000 * e <= 345_600_000_000 && 4000 * e * (dur - e)
            <= 345_600_000_000 * 86_400_000 && dur * dur <= 86_400_000 * 86_400_000 && 1 <= dur
            * dur) by (nonlinear_arith)
            requires
                0 <= e <= dur,
                1 <= dur <= 86_400_000,
        ;
    }
    let num = 4000 * e * (dur - e);
    let den = dur * dur;
    proof {
        assert(num <= 1000 * den) by (nonlinear_arith)
            requires
                num == 4000 * e * (dur - e),
                den == dur * dur,
                0 <= e <= dur,
        ;
        assert(num / den <= 1000) by (nonlinear_arith)
            requires
                num <= 1000 * den,
                den >= 1,
        ;
    }
    let q = num / den;
    q as u64
}

/// At the very start and the very end of a cycle the easing factor is zero.
pub proof fn lemma_speed_factor_endpoints(duration_ms: u64)
    requires
        1 <= duration_ms,
    ensures
        speed_factor_spec(0, duration_ms) == 0,
        speed_factor_spec(duration_ms, duration_ms) == 0,
{
    assert(4000 * 0 * (duration_ms - 0) == 0) by (nonlinear_arith);
    assert(4000 * duration_ms * (duration_ms - duration_ms) == 0) by (nonlinear_arith);
    assert(0int / (duration_ms * duration_ms) == 0) by (nonlinear_arith)
        requires
            duration_ms >= 1,
    ;
}

/// The easing factor is greatest at the midpoint of the cycle; on a cycle of
/// even length the midpoint factor is exactly one thousand permille.
pub proof fn lemma_speed_factor_peak(elapsed_ms: u64, duration_ms: u64)
    requires
        1 <= duration_ms,
        elapsed_ms <= duration_ms,
    ensures
        speed_factor_spec(elapsed_ms, duration_ms) <= speed_factor_spec(
            duration_ms / 2,
            duration_ms,
        ),
        duration_ms % 2 == 0 ==> speed_factor_spec(duration_ms / 2, duration_ms) == 1000,
{
    let e = elapsed_ms as int;
    let dur = duration_ms as int;
    let h = dur / 2;
    assert(0 <= h <= dur && 2 * h <= dur <= 2 * h + 1) by (nonlinear_arith)
        requires
            h == dur / 2,
            dur >= 1,
    ;
    assert(e * (dur - e) <= h * (dur - h)) by (nonlinear_arith)
        requires
            0 <= e <= dur,
            0 <= h <= dur,
            2 * h <= dur <= 2 * h + 1,
    ;
    assert(4000 * e * (dur - e) <= 4000 * h * (dur - h)) by (nonlinear_arith)
        requires
            e * (dur - e) <= h * (dur - h),
    ;
    assert(4000 * e * (dur - e) / (dur * dur) <= 4000 * h * (dur - h) / (dur * dur))
        by (nonlinear_arith)
        requires
            4000 * e * (dur - e) <= 4000 * h * (dur - h),
            dur >= 1,
    ;
    assert((duration_ms / 2) as u64 <= duration_ms);
    if duration_ms % 2 == 0 {
        assert(dur == 2 * h) by (nonlinear_arith)
            requires
                h == dur / 2,
                dur % 2 == 0,
                dur >= 1,
        ;
        assert(4000 * h * (dur - h) == 1000 * (dur * dur)) by (nonlinear_arith)
            requires
                dur == 2 * h,
        ;
        assert((1000 * (dur * dur)) / (dur * dur) == 1000) by (nonlinear_arith)
            requires
                dur >= 1,
        ;
    }
}

/// The displacement one frame of movement integration gives a moving mind:
/// the stored speed eased by the cycle factor, along the unit direction of
/// the goal, over `dt` milliseconds. A mind that is not moving, a goal with
/// no direction, and a degenerate cycle all give no displacement.
pub open spec fn walk_delta(mind: SheepMind, dt: u64) -> Vec2 {
    match mind.state {
        State::Moving { goal, speed } => {
            let f = speed_factor_spec(mind.cycle.elapsed_ms, mind.cycle.duration_ms);
            let len = isqrt_spec(goal.norm_sq() as nat) as int;
            if len == 0 {
                Vec2 { x: 0, y: 0 }
            } else {
                Vec2 {
                    x: tdiv(speed * f * dt * goal.x, 1_000_000 * len) as i64,
                    y: tdiv(speed * f * dt * goal.y, 1_000_000 * len) as i64,
                }
            }
        },
        _ => Vec2 { x: 0, y: 0 },
    }
}

/// Movement integration for one frame: the new position of an agent whose
/// mind is moving. The displacement never exceeds `dt` units per axis (the
/// eased speed never exceeds one unit per millisecond).
pub fn walk_one(pos: Vec2, mind: &SheepMind, dt: u64) -> (r: Vec2)
    requires
        mind.wf(),
        pos.abs_le(COORD_LIMIT as int),
        dt <= WALK_DT_LIMIT,
    ensures
        r == pos.add_spec(walk_delta(*mind, dt)),
        walk_delta(*mind, dt).abs_le(dt as int),
        r.abs_le(COORD_LIMIT as int + dt as int),
{
    match &mind.state {
        State::Moving { goal, speed } => {
            let g = *goal;
            let sp = *speed;
            let len = g.length_floor();
            let f: u64 = if mind.cycle.duration_ms >= 1 && mind.cycle.elapsed_ms
                <= mind.cycle.duration_ms {
                speed_from_time(mind.cycle.elapsed_ms, mind.cycle.duration_ms)
            } else {
                0
            };
            proof {
                assert(f == speed_factor_spec(mind.cycle.elapsed_ms, mind.cycle.duration_ms));
            }
            if len == 0 {
                pos
            } else {
                proof {
                    assert(g.norm_sq() >= 0 && g.norm_sq() <= 2_000_000_000_000) by (nonlinear_arith)
                        requires
                            -1_000_000 <= g.x <= 1_000_000,
                            -1_000_000 <= g.y <= 1_000_000,
                    ;
                    lemma_isqrt_bounds(g.norm_sq() as nat);
                    assert(1 <= len <= 1_414_214 && -(len as int) <= g.x <= len as int
                        && -(len as int) <= g.y <= len as int) by (nonlinear_arith)
                        requires
                            len * len <= g.norm_sq() < (len + 1) * (len + 1),
                            g.norm_sq() <= 2_000_000_000_000,
                            g.norm_sq() == g.x * g.x + g.y * g.y,
                            len >= 1,
                    ;
                    assert(0 <= sp * f <= 1_000_000 && 0 <= sp * f * dt <= 1_000_000 * dt && sp
                        * f * dt <= 60_000_000_000 && -(100_000_000_000_000_000int) <= sp * f
                        * dt * g.x <= 100_000_000_000_000_000int && -(
                    100_000_000_000_000_000int) <= sp * f * dt * g.y
                        <= 100_000_000_000_000_000int) by (nonlinear_arith)
                        requires
                            0 <= sp <= 1000,
                            0 <= f <= 1000,
                            0 <= dt <= 60_000,
                            -1_414_214 <= g.x <= 1_414_214,
                            -1_414_214 <= g.y <= 1_414_214,
                    ;
                }
                let c: i64 = sp * (f as i64) * (dt as i64);
                let den: i64 = 1_000_000 * (len as i64);
                proof {
                    assert(1_000_000 <= den) by (nonlinear_arith)
                        requires
                            den == 1_000_000 * len,
                            1 <= len,
                    ;
                }
                let dx = div_trunc(c * g.x, den);
                let dy = div_trunc(c * g.y, den);
                proof {
                    lemma_tdiv_close(c as int * g.x, den as int);
                    lemma_tdiv_close(c as int * g.y, den as int);
                    assert(-(dt as int) <= dx <= dt as int && -(dt as int) <= dy <= dt as int)
                        by (nonlinear_arith)
                        requires
                            -(den - 1) <= den * dx - c * g.x <= den - 1,
                            -(den - 1) <= den * dy - c * g.y <= den - 1,
                            den == 1_000_000 * len,
                            1 <= len,
                            -(len as int) <= g.x <= len as int,
                            -(len as int) <= g.y <= len as int,
                            0 <= c <= 1_000_000 * dt,
                            0 <= dt,
                    ;
                }
                Vec2 { x: pos.x + dx, y: pos.y + dy }
            }
        },
        _ => pos,
    }
}

impl SheepMind {
    pub open spec fn wf(self) -> bool {
        self.state.wf() && self.cycle.wf()
    }

    /// A fresh idle mind whose first cycle length is drawn uniformly from
    /// `[CYCLE_MIN_MS, CYCLE_MAX_MS)`.
    pub fn new_idle() -> (r: SheepMind)
        ensures
            r.state.is_idle(),
            r.cycle.repeating,
            !r.cycle.just_finished,
            r.cycle.elapsed_ms == 0,
            CYCLE_MIN_MS <= r.cycle.duration_ms < CYCLE_MAX_MS,
            r.wf(),
    {
        let duration = CYCLE_MIN_MS + rand_below(CYCLE_MAX_MS - CYCLE_MIN_MS);
        SheepMind { state: State::Idle, cycle: Timer::new_repeating(duration) }
    }

    /// Advance the cycle timer; when it wraps, step the state machine:
    /// moving goes idle, idle starts observing with an empty neighbour list,
    /// and a mind still observing is a sequencing defect, reset to idle.
    pub fn tick_cycle(self, dt: u64) -> (r: SheepMind)
        requires
            self.wf(),
            dt <= TIME_LIMIT_MS,
        ensures
            r.cycle == self.cycle.tick_spec(dt),
            r.wf(),
            ({
                let fired = self.cycle.tick_spec(dt).just_finished;
                if fired {
                    match self.state {
                        State::Moving { .. } => r.state.is_idle(),
                        State::Idle => r.state.is_observing() && r.state.neighbors_view()
                            =~= Seq::<Vec2>::empty(),
                        State::Observing { .. } => r.state.is_idle(),
                    }
                } else {
                    r.state == self.state
                }
            }),
    {
        let mut cycle = self.cycle;
        cycle.tick(dt);
        if cycle.just_finished {
            let state = match self.state {
                State::Moving { .. } => State::Idle,
                State::Idle => State::Observing { neighbors: Vec::new() },
                State::Observing { .. } => State::Idle,
            };
            SheepMind { state, cycle }
        } else {
            SheepMind { state: self.state, cycle }
        }
    }

    /// The horizontal component of the current goal, for presentation
    /// (sprite facing); zero while not moving.
    pub fn dx(&self) -> (r: i64)
        ensures
            r == self.state.goal_of().x,
    {
        match &self.state {
            State::Moving { goal, .. } => goal.x,
            _ => 0,
        }
    }

    /// Whether the mind is in its movement phase, for presentation (sprite
    /// animation).
    pub fn moving(&self) -> (r: bool)
        ensures
            r == self.state.is_moving(),
    {
        match &self.state {
            State::Moving { .. } => true,
            _ => false,
        }
    }

    /// Whether the mind is currently gathering neighbours.
    pub fn observing_now(&self) -> (r: bool)
        ensures
            r == self.state.is_observing(),
    {
        match &self.state {
            State::Observing { .. } => true,
            _ => false,
        }
    }

    /// Record one neighbour vector while observing; any other state ignores
    /// it.
    pub fn observe(self, v: Vec2) -> (r: SheepMind)
        requires
            self.wf(),
            v.abs_le(GOAL_LIMIT as int),
        ensures
            r.cycle == self.cycle,
            r.wf(),
            self.state.is_observing() ==> r.state.is_observing() && r.state.neighbors_view()
                == self.state.neighbors_view().push(v),
            !self.state.is_observing() ==> r.state == self.state,
    {
        match self.state {
            State::Observing { mut neighbors } => {
                neighbors.push(v);
                SheepMind { state: State::Observing { neighbors }, cycle: self.cycle }
            },
            other => SheepMind { state: other, cycle: self.cycle },
        }
    }

    /// Resolve an observing mind into a moving one; other states are left
    /// alone.
    pub fn conclude_from_observation(self) -> (r: SheepMind)
        requires
            self.wf(),
        ensures
            concluded(self, r),
            r.wf(),
    {
        match self.state {
            State::Observing { neighbors } => {
                let ghost ns = neighbors@;
                proof {
                    assert(all_vecs_le(ns, 2 * COORD_LIMIT as int));
                }
                if neighbors.len() == 0 {
                    SheepMind {
                        state: State::Moving { goal: Vec2 { x: 0, y: 0 }, speed: 0 },
                        cycle: self.cycle,
                    }
                } else {
                    let sorted = sort_neighbors(&neighbors);
                    proof {
                        lemma_sort_by_norm_props(ns, GOAL_LIMIT as int);
                    }
                    let first = sorted[0];
                    if first.norm_sq_e()
                        < (COLLISION_DISTANCE * COLLISION_DISTANCE) as u64 {
                        SheepMind {
                            state: State::Moving { goal: first.neg(), speed: FLEE_SPEED },
                            cycle: self.cycle,
                        }
                    } else {
                        let count = if neighbors.len() < SHEEP_AWARENESS {
                            neighbors.len()
                        } else {
                            SHEEP_AWARENESS
                        };
                        let mut sx: i64 = 0;
                        let mut sy: i64 = 0;
                        let mut i: usize = 0;
                        while i < count
                            invariant
                                sorted@ == sort_by_norm(ns),
                                all_vecs_le(sorted@, GOAL_LIMIT as int),
                                i <= count <= 4,
                                1 <= count <= sorted@.len(),
                                (sx as int, sy as int) == sum_weights(sorted@, i as int),
                            decreases count - i,
                        {
                            let v = sorted[i];
                            let c: Vec2 = if v.norm_sq_e()
                                <= (AVOID_RANGE * AVOID_RANGE) as u64 {
                                Vec2 { x: div_trunc(-v.x, 2), y: div_trunc(-v.y, 2) }
                            } else {
                                v
                            };
                            proof {
                                lemma_tdiv_close(-v.x as int, 2);
                                lemma_tdiv_close(-v.y as int, 2);
                                assert(c == weight_of(v));
                                lemma_weight_le(v);
                                lemma_sum_weights_bound(sorted@, i as int);
                                lemma_sum_weights_bound(sorted@, i + 1);
                            }
                            sx = sx + c.x;
                            sy = sy + c.y;
                            i += 1;
                        }
                        proof {
                            lemma_sum_weights_bound(sorted@, count as int);
                        }
                        let goal = Vec2 {
                            x: div_trunc(sx, count as i64),
                            y: div_trunc(sy, count as i64),
                        };
                        proof {
                            lemma_tdiv_close(sx as int, count as int);
                            lemma_tdiv_close(sy as int, count as int);
                            assert(-(GOAL_LIMIT as int) <= goal.x <= GOAL_LIMIT as int
                                && -(GOAL_LIMIT as int) <= goal.y <= GOAL_LIMIT as int)
                                by (nonlinear_arith)
                                requires
                                    -(count as int) * (GOAL_LIMIT as int) <= sx <= (
                                    count as int) * (GOAL_LIMIT as int),
                                    -(count as int) * (GOAL_LIMIT as int) <= sy <= (
                                    count as int) * (GOAL_LIMIT as int),
                                    1 <= count <= 4,
                                    -(count as int - 1) <= (count as int) * goal.x - sx
                                        <= count as int - 1,
                                    -(count as int - 1) <= (count as int) * goal.y - sy
                                        <= count as int - 1,
                            ;
                        }
                        SheepMind {
                            state: State::Moving { goal, speed: FLOCK_SPEED },
                            cycle: self.cycle,
                        }
                    }
                }
            },
            other => SheepMind { state: other, cycle: self.cycle },
        }
    }
}

} // verus!
