//! The collision resolver: once per tick, every sheep that stands closer to
//! some other sheep than the collision distance is pushed directly away from
//! its closest such neighbour by exactly the missing distance. The pass runs
//! before any flocking decision, so minds never observe overlapping agents.

use vstd::prelude::*;

use crate::vec2::{
    dist_sq, isqrt_spec, lemma_isqrt_bounds, lemma_tdiv_close, tdiv, Vec2, COORD_LIMIT,
};

verus! {

/// Two sheep closer than this distance, in simulation units, count as
/// overlapping and are pushed apart.
pub const COLLISION_DISTANCE: i64 = 25;

/// The resolver accepts flocks up to this size (it keeps indices inside
/// `i64` and the arithmetic inside bounds).
pub const MAX_AGENTS: usize = 1_000_000;

/// Every position within the world bound.
pub open spec fn all_in_world(s: Seq<Vec2>) -> bool {
    forall|k: int| 0 <= k < s.len() ==> (#[trigger] s[k]).abs_le(COORD_LIMIT as int)
}

/// Every position within `b` of the origin on both axes.
pub open spec fn all_abs_le(s: Seq<Vec2>, b: int) -> bool {
    forall|k: int| 0 <= k < s.len() ==> (#[trigger] s[k]).abs_le(b)
}

/// No two distinct agents closer than the collision distance.
pub open spec fn separated(s: Seq<Vec2>) -> bool {
    forall|i: int, j: int|
        0 <= i < s.len() && 0 <= j < s.len() && i != j ==> #[trigger] dist_sq(s[i], s[j])
            >= COLLISION_DISTANCE * COLLISION_DISTANCE
}

/// The closest colliding neighbour of agent `k` among agents `0..m`: the
/// first index attaining the least squared distance under the collision
/// distance, or `-1` when no agent of the prefix collides with `k`.
pub open spec fn best_upto(s: Seq<Vec2>, k: int, m: int) -> int
    decreases m,
{
    if m <= 0 {
        -1
    } else {
        let prev = best_upto(s, k, m - 1);
        let j = m - 1;
        if j == k {
            prev
        } else if dist_sq(s[k], s[j]) < COLLISION_DISTANCE * COLLISION_DISTANCE && (prev == -1
            || dist_sq(s[k], s[j]) < dist_sq(s[k], s[prev])) {
            j
        } else {
            prev
        }
    }
}

/// The closest colliding neighbour of agent `k` over the whole flock.
pub open spec fn closest_colliding(s: Seq<Vec2>, k: int) -> int {
    best_upto(s, k, s.len() as int)
}

/// The correction applied to agent `k`: along the separation vector from its
/// closest colliding neighbour, scaled so that the push length is the missing
/// distance. Co-located agents have no direction and get no push.
pub open spec fn push_of(s: Seq<Vec2>, k: int) -> Vec2 {
    let j = closest_colliding(s, k);
    if j == -1 {
        Vec2 { x: 0, y: 0 }
    } else {
        let v = s[k].sub_spec(s[j]);
        let d = isqrt_spec(v.norm_sq() as nat) as int;
        if d == 0 {
            Vec2 { x: 0, y: 0 }
        } else {
            Vec2 {
                x: tdiv((COLLISION_DISTANCE - d) * v.x, d) as i64,
                y: tdiv((COLLISION_DISTANCE - d) * v.y, d) as i64,
            }
        }
    }
}

/// The whole pass: every agent moves by its own push, all pushes computed
/// from the positions as they stood before the pass.
pub open spec fn resolved(s: Seq<Vec2>) -> Seq<Vec2> {
    Seq::new(s.len(), |k: int| s[k].add_spec(push_of(s, k)))
}

/// The closest colliding neighbour is a valid index distinct from `k`, and
/// it does collide.
proof fn lemma_best_upto_props(s: Seq<Vec2>, k: int, m: int)
    requires
        m <= s.len(),
    ensures
        best_upto(s, k, m) == -1 || (0 <= best_upto(s, k, m) < m && best_upto(s, k, m) != k
            && dist_sq(s[k], s[best_upto(s, k, m)]) < COLLISION_DISTANCE * COLLISION_DISTANCE),
    decreases m,
{
    if m > 0 {
        lemma_best_upto_props(s, k, m - 1);
    }
}

/// In a separated flock nobody has a colliding neighbour.
proof fn lemma_best_upto_separated(s: Seq<Vec2>, k: int, m: int)
    requires
        separated(s),
        m <= s.len(),
        0 <= k < s.len(),
    ensures
        best_upto(s, k, m) == -1,
    decreases m,
{
    if m > 0 {
        lemma_best_upto_separated(s, k, m - 1);
    }
}

/// A configuration with no overlaps is a fixed point of the resolver: the
/// pass displaces nothing.
pub proof fn lemma_resolver_fixed_point(s: Seq<Vec2>)
    requires
        separated(s),
        all_in_world(s),
    ensures
        resolved(s) == s,
{
    assert forall|k: int| 0 <= k < s.len() implies resolved(s)[k] == s[k] by {
        lemma_best_upto_separated(s, k, s.len() as int);
        assert(push_of(s, k) == (Vec2 { x: 0, y: 0 }));
    }
    assert(resolved(s) =~= s);
}

/// Running the resolver twice in succession on an already separated
/// configuration adds no displacement beyond the first run.
pub proof fn lemma_resolver_idempotent(s: Seq<Vec2>)
    requires
        separated(s),
        all_in_world(s),
    ensures
        resolved(resolved(s)) == resolved(s),
{
    lemma_resolver_fixed_point(s);
}

/// The core of the pair-separation bound, over plain integers. An agent pair
/// at distance floor `d` under the collision distance is pushed apart; after
/// both pushes the squared separation is at least `520`, which clears
/// `(COLLISION_DISTANCE - 3)^2`. The slack of `3` covers the rounding of the
/// two truncated divisions.
proof fn lemma_push_apart(x: int, y: int, d: int)
    requires
        1 <= d <= 24,
        d * d <= x * x + y * y,
        x * x + y * y < (d + 1) * (d + 1),
    ensures
        (x + 2 * tdiv((25 - d) * x, d)) * (x + 2 * tdiv((25 - d) * x, d)) + (y + 2 * tdiv(
            (25 - d) * y,
            d,
        )) * (y + 2 * tdiv((25 - d) * y, d)) >= 520,
{
    let need = 25 - d;
    let px = tdiv(need * x, d);
    let py = tdiv(need * y, d);
    let m = 50 - d;
    lemma_tdiv_close(need * x, d);
    lemma_tdiv_close(need * y, d);
    let ex = 2 * (d * px - need * x);
    let ey = 2 * (d * py - need * y);
    assert(-2 * (d - 1) <= ex <= 2 * (d - 1));
    assert(-2 * (d - 1) <= ey <= 2 * (d - 1));
    let nx = d * (x + 2 * px);
    let ny = d * (y + 2 * py);
    assert(nx == m * x + ex && ny == m * y + ey) by (nonlinear_arith)
        requires
            nx == d * (x + 2 * px),
            ny == d * (y + 2 * py),
            ex == 2 * (d * px - need * x),
            ey == 2 * (d * py - need * y),
            need == 25 - d,
            m == 50 - d,
    ;
    let ax = m * x;
    let ay = m * y;
    let dot = ax * ex + ay * ey;
    // component magnitudes, and the taxicab bound |x| + |y| <= (3d + 3) / 2
    let tx = if x >= 0 { x } else { -x };
    let ty = if y >= 0 { y } else { -y };
    assert(-d <= x <= d && -d <= y <= d) by (nonlinear_arith)
        requires
            x * x + y * y < (d + 1) * (d + 1),
            d >= 1,
    ;
    assert((tx + ty) * (tx + ty) <= 2 * (x * x + y * y)) by (nonlinear_arith)
        requires
            tx == x || tx == -x,
            ty == y || ty == -y,
    ;
    assert(2 * (tx + ty) <= 3 * d + 3) by (nonlinear_arith)
        requires
            (tx + ty) * (tx + ty) <= 2 * ((d + 1) * (d + 1) - 1),
            tx + ty >= 0,
            d >= 1,
    ;
    // the rounding can fight the exact push by at most 6 m d^2 in total
    let e_total = 2 * (d - 1) * m * (tx + ty);
    assert(dot >= -e_total) by (nonlinear_arith)
        requires
            dot == ax * ex + ay * ey,
            ax == m * x,
            ay == m * y,
            -tx <= x <= tx,
            -ty <= y <= ty,
            -2 * (d - 1) <= ex <= 2 * (d - 1),
            -2 * (d - 1) <= ey <= 2 * (d - 1),
            e_total == 2 * (d - 1) * m * (tx + ty),
            m >= 26,
            d >= 1,
    ;
    assert(2 * e_total <= 6 * m * (d * d)) by (nonlinear_arith)
        requires
            e_total == 2 * (d - 1) * m * (tx + ty),
            2 * (tx + ty) <= 3 * d + 3,
            tx + ty >= 0,
            d >= 1,
            m >= 26,
    ;
    // the scaled new separation keeps most of the exact push
    let a2 = ax * ax + ay * ay;
    let e2 = ex * ex + ey * ey;
    assert(a2 == m * m * (x * x + y * y)) by (nonlinear_arith)
        requires
            a2 == ax * ax + ay * ay,
            ax == m * x,
            ay == m * y,
    ;
    assert(nx * nx + ny * ny == a2 + 2 * dot + e2) by (nonlinear_arith)
        requires
            nx == ax + ex,
            ny == ay + ey,
            dot == ax * ex + ay * ey,
            a2 == ax * ax + ay * ay,
            e2 == ex * ex + ey * ey,
    ;
    assert(e2 >= 0) by (nonlinear_arith)
        requires
            e2 == ex * ex + ey * ey,
    ;
    assert(m * m * (x * x + y * y) >= (m * m) * (d * d)) by (nonlinear_arith)
        requires
            x * x + y * y >= d * d,
    ;
    assert((m * m) * (d * d) - 6 * m * (d * d) >= 520 * (d * d)) by (nonlinear_arith)
        requires
            26 <= m <= 49,
            d >= 1,
    ;
    assert(nx * nx + ny * ny >= 520 * (d * d));
    assert(nx * nx + ny * ny == (d * d) * ((x + 2 * px) * (x + 2 * px) + (y + 2 * py) * (y + 2
        * py))) by (nonlinear_arith)
        requires
            nx == d * (x + 2 * px),
            ny == d * (y + 2 * py),
    ;
    assert((x + 2 * px) * (x + 2 * px) + (y + 2 * py) * (y + 2 * py) >= 520) by (nonlinear_arith)
        requires
            (d * d) * ((x + 2 * px) * (x + 2 * px) + (y + 2 * py) * (y + 2 * py)) >= 520 * (d
                * d),
            d >= 1,
    ;
}

/// For a pair of distinct (not co-located) sheep, one pass of the resolver
/// leaves them at least `COLLISION_DISTANCE - 3` apart; the slack of three
/// units covers the truncation of the two integer pushes.
pub proof fn lemma_pair_separation(s: Seq<Vec2>)
    requires
        s.len() == 2,
        all_in_world(s),
        dist_sq(s[0], s[1]) >= 1,
    ensures
        dist_sq(resolved(s)[0], resolved(s)[1]) >= (COLLISION_DISTANCE - 3) * (COLLISION_DISTANCE
            - 3),
{
    reveal_with_fuel(best_upto, 4);
    let a = s[0];
    let b = s[1];
    assert(a.abs_le(COORD_LIMIT as int) && b.abs_le(COORD_LIMIT as int));
    let v = a.sub_spec(b);
    let w = b.sub_spec(a);
    assert(w.x == -v.x && w.y == -v.y);
    assert(w.norm_sq() == v.norm_sq()) by (nonlinear_arith)
        requires
            w.x == -v.x && w.y == -v.y,
    ;
    let ds = dist_sq(a, b);
    assert(dist_sq(b, a) == ds);
    if ds >= COLLISION_DISTANCE * COLLISION_DISTANCE {
        assert(closest_colliding(s, 0) == -1);
        assert(closest_colliding(s, 1) == -1);
        assert(resolved(s)[0] == a.add_spec(Vec2 { x: 0, y: 0 }));
        assert(resolved(s)[1] == b.add_spec(Vec2 { x: 0, y: 0 }));
        assert(resolved(s)[0] == a && resolved(s)[1] == b);
    } else {
        assert(closest_colliding(s, 0) == 1);
        assert(closest_colliding(s, 1) == 0);
        lemma_isqrt_bounds(ds as nat);
        let d = isqrt_spec(ds as nat) as int;
        assert(1 <= d <= 24) by (nonlinear_arith)
            requires
                d * d <= ds < (d + 1) * (d + 1),
                1 <= ds < 625,
                d >= 0,
        ;
        let need = COLLISION_DISTANCE - d;
        let px = tdiv(need * v.x, d);
        let py = tdiv(need * v.y, d);
        // the component magnitudes are at most d, so the pushes stay small
        assert(-24 <= v.x <= 24 && -24 <= v.y <= 24) by (nonlinear_arith)
            requires
                v.x * v.x + v.y * v.y == ds,
                ds < 625,
        ;
        lemma_tdiv_close(need * v.x, d);
        lemma_tdiv_close(need * v.y, d);
        assert(-600 <= px <= 600 && -600 <= py <= 600) by (nonlinear_arith)
            requires
                -24 <= v.x <= 24,
                -24 <= v.y <= 24,
                1 <= need <= 24,
                1 <= d <= 24,
                -(d - 1) <= d * px - need * v.x <= d - 1,
                -(d - 1) <= d * py - need * v.y <= d - 1,
        ;
        // the second agent's push is the exact negation of the first's
        assert(tdiv(need * w.x, d) == -px && tdiv(need * w.y, d) == -py) by {
            assert(need * w.x == -(need * v.x) && need * w.y == -(need * v.y))
                by (nonlinear_arith)
                requires
                    w.x == -v.x && w.y == -v.y,
            ;
        }
        assert(push_of(s, 0) == (Vec2 { x: px as i64, y: py as i64 }));
        assert(push_of(s, 1) == (Vec2 { x: (-px) as i64, y: (-py) as i64 }));
        let r0 = resolved(s)[0];
        let r1 = resolved(s)[1];
        assert(r0.x == a.x + px && r0.y == a.y + py);
        assert(r1.x == b.x - px && r1.y == b.y - py);
        let sx = r0.sub_spec(r1).x as int;
        let sy = r0.sub_spec(r1).y as int;
        assert(sx == v.x + 2 * px && sy == v.y + 2 * py);
        lemma_push_apart(v.x as int, v.y as int, d);
        assert(dist_sq(r0, r1) == sx * sx + sy * sy);
        assert(sx * sx + sy * sy >= 520);
    }
}

/// One resolver pass. Every sheep that collides with another moves away from
/// its closest colliding neighbour by the missing distance, all corrections
/// computed against the positions as they stood at the start of the pass.
pub fn collision(positions: &mut Vec<Vec2>)
    requires
        all_in_world(old(positions)@),
        old(positions)@.len() <= MAX_AGENTS,
    ensures
        final(positions)@ == resolved(old(positions)@),
        all_abs_le(final(positions)@, COORD_LIMIT + 2 * COLLISION_DISTANCE),
        forall|k: int|
            0 <= k < old(positions)@.len() ==> ((#[trigger] final(positions)@[k]).x - old(
                positions,
            )@[k].x <= 2 * COLLISION_DISTANCE && final(positions)@[k].x - old(positions)@[k].x
                >= -2 * COLLISION_DISTANCE && final(positions)@[k].y - old(positions)@[k].y <= 2
                * COLLISION_DISTANCE && final(positions)@[k].y - old(positions)@[k].y >= -2
                * COLLISION_DISTANCE),
{
    let n = positions.len();
    let ghost s = positions@;
    let cd2: u64 = (COLLISION_DISTANCE * COLLISION_DISTANCE) as u64;
    let mut best: Vec<i64> = Vec::new();
    let mut k: usize = 0;
    while k < n
        invariant
            positions@ == s,
            n == s.len(),
            all_in_world(s),
            n <= MAX_AGENTS,
            cd2 == COLLISION_DISTANCE * COLLISION_DISTANCE,
            k <= n,
            best@.len() == k,
            forall|i: int| 0 <= i < k ==> best@[i] == best_upto(s, i, n as int),
        decreases n - k,
    {
        let mut bj: i64 = -1;
        let mut j: usize = 0;
        while j < n
            invariant
                positions@ == s,
                n == s.len(),
                all_in_world(s),
                n <= MAX_AGENTS,
                cd2 == COLLISION_DISTANCE * COLLISION_DISTANCE,
                k < n,
                j <= n,
                bj == best_upto(s, k as int, j as int),
            decreases n - j,
        {
            proof {
                lemma_best_upto_props(s, k as int, j as int);
                assert(s[k as int].abs_le(COORD_LIMIT as int));
                assert(s[j as int].abs_le(COORD_LIMIT as int));
            }
            if j != k {
                let ds = positions[k].sub(positions[j]).norm_sq_e();
                let better = ds < cd2 && (bj < 0 || {
                    let db = positions[k].sub(positions[bj as usize]).norm_sq_e();
                    ds < db
                });
                if better {
                    bj = j as i64;
                }
            }
            j += 1;
        }
        best.push(bj);
        k += 1;
    }
    let mut out: Vec<Vec2> = Vec::new();
    k = 0;
    while k < n
        invariant
            positions@ == s,
            n == s.len(),
            all_in_world(s),
            n <= MAX_AGENTS,
            best@.len() == n,
            forall|i: int| 0 <= i < n ==> best@[i] == best_upto(s, i, n as int),
            k <= n,
            out@.len() == k,
            forall|i: int| 0 <= i < k ==> out@[i] == resolved(s)[i],
            forall|i: int|
                0 <= i < k ==> (#[trigger] out@[i]).abs_le(
                    COORD_LIMIT + 2 * COLLISION_DISTANCE,
                ),
            forall|i: int|
                0 <= i < k ==> ((#[trigger] out@[i]).x - s[i].x <= 2 * COLLISION_DISTANCE
                    && out@[i].x - s[i].x >= -2 * COLLISION_DISTANCE && out@[i].y - s[i].y <= 2
                    * COLLISION_DISTANCE && out@[i].y - s[i].y >= -2 * COLLISION_DISTANCE),
        decreases n - k,
    {
        proof {
            lemma_best_upto_props(s, k as int, n as int);
            assert(s[k as int].abs_le(COORD_LIMIT as int));
        }
        let bj = best[k];
        let p: Vec2 = if bj < 0 {
            Vec2 { x: 0, y: 0 }
        } else {
            proof {
                assert(s[bj as int].abs_le(COORD_LIMIT as int));
            }
            let v = positions[k].sub(positions[bj as usize]);
            let d = v.length_floor();
            if d == 0 {
                Vec2 { x: 0, y: 0 }
            } else {
                proof {
                    assert(v == s[k as int].sub_spec(s[bj as int]));
                    assert(v.norm_sq() == dist_sq(s[k as int], s[bj as int]));
                    assert(v.norm_sq() < COLLISION_DISTANCE * COLLISION_DISTANCE);
                    assert(v.x * v.x + v.y * v.y >= 0) by (nonlinear_arith);
                    lemma_isqrt_bounds(v.norm_sq() as nat);
                    assert(d * d <= v.norm_sq() < (d + 1) * (d + 1));
                    assert(1 <= d <= 24 && -d <= v.x <= d && -d <= v.y <= d)
                        by (nonlinear_arith)
                        requires
                            d * d <= v.x * v.x + v.y * v.y < (d + 1) * (d + 1),
                            v.x * v.x + v.y * v.y < 625,
                            d >= 1,
                    ;
                }
                let need: i64 = COLLISION_DISTANCE - (d as i64);
                proof {
                    assert(1 <= d as i64 <= 24);
                    assert(1 <= need <= 24);
                    assert(-576 <= need * v.x <= 576) by (nonlinear_arith)
                        requires
                            1 <= need <= 24,
                            -24 <= v.x <= 24,
                    ;
                    assert(-576 <= need * v.y <= 576) by (nonlinear_arith)
                        requires
                            1 <= need <= 24,
                            -24 <= v.y <= 24,
                    ;
                }
                let px = crate::vec2::div_trunc(need * v.x, d as i64);
                let py = crate::vec2::div_trunc(need * v.y, d as i64);
                proof {
                    lemma_tdiv_close(need * v.x, d as int);
                    lemma_tdiv_close(need * v.y, d as int);
                    assert(-25 <= px <= 25 && -25 <= py <= 25) by (nonlinear_arith)
                        requires
                            -(d - 1) <= d * px - need * v.x <= d - 1,
                            -(d - 1) <= d * py - need * v.y <= d - 1,
                            -d <= v.x <= d,
                            -d <= v.y <= d,
                            1 <= need <= 24,
                            1 <= d <= 24,
                    ;
                }
                Vec2 { x: px, y: py }
            }
        };
        proof {
            assert(p == push_of(s, k as int));
            assert(p.abs_le(2 * COLLISION_DISTANCE as int));
        }
        out.push(positions[k].add(p));
        k += 1;
    }
    *positions = out;
    proof {
        assert(positions@ =~= resolved(s));
    }
}

} // verus!
