//! Plane vectors over whole simulation units, together with the integer
//! square root and the truncating division that the movement rules use.

use vstd::prelude::*;

verus! {

/// Coordinates of every agent stay well inside this bound, which keeps all
/// of the pairwise arithmetic inside `i64`.
pub const COORD_LIMIT: i64 = 1_000_000_000;

/// A position or displacement in the plane, in whole simulation units.
#[derive(Clone, Copy, PartialEq, Eq, Structural, Debug)]
pub struct Vec2 {
    pub x: i64,
    pub y: i64,
}

/// Truncating division (the rounding of Rust's `/` on machine integers):
/// the quotient is rounded toward zero.
pub open spec fn tdiv(a: int, b: int) -> int {
    if a >= 0 {
        a / b
    } else {
        -((-a) / b)
    }
}

/// The integer square root: the greatest `r` with `r * r <= n`.
pub open spec fn isqrt_spec(n: nat) -> nat
    decreases n,
{
    if n == 0 {
        0
    } else {
        let r = isqrt_spec((n - 1) as nat);
        if (r + 1) * (r + 1) <= n {
            r + 1
        } else {
            r
        }
    }
}

pub proof fn lemma_isqrt_bounds(n: nat)
    ensures
        isqrt_spec(n) * isqrt_spec(n) <= n,
        n < (isqrt_spec(n) + 1) * (isqrt_spec(n) + 1),
    decreases n,
{
    if n > 0 {
        lemma_isqrt_bounds((n - 1) as nat);
        let r = isqrt_spec((n - 1) as nat);
        if (r + 1) * (r + 1) <= n {
            assert(isqrt_spec(n) == r + 1);
            assert(n < (r + 2) * (r + 2)) by (nonlinear_arith)
                requires n - 1 < (r + 1) * (r + 1), r >= 0;
            assert((isqrt_spec(n) + 1) * (isqrt_spec(n) + 1) == (r + 2) * (r + 2))
                by (nonlinear_arith)
                requires isqrt_spec(n) == r + 1;
        } else {
            assert(isqrt_spec(n) == r);
        }
    } else {
        assert(n < (isqrt_spec(n) + 1) * (isqrt_spec(n) + 1)) by (nonlinear_arith)
            requires n == 0, isqrt_spec(n) == 0;
    }
}

/// The bounds above pin the square root down: no two values satisfy them.
pub proof fn lemma_isqrt_unique(n: nat, r: nat)
    requires
        r * r <= n,
        n < (r + 1) * (r + 1),
    ensures
        r == isqrt_spec(n),
{
    lemma_isqrt_bounds(n);
    let q = isqrt_spec(n);
    if r < q {
        assert((r + 1) * (r + 1) <= q * q) by (nonlinear_arith)
            requires r + 1 <= q;
    }
    if q < r {
        assert((q + 1) * (q + 1) <= r * r) by (nonlinear_arith)
            requires q + 1 <= r;
    }
}

/// Integer square root by bisection.
pub fn isqrt(n: u64) -> (r: u64)
    ensures
        r == isqrt_spec(n as nat),
        r * r <= n,
{
    let mut lo: u64 = 0;
    let mut hi: u64 = 4294967296;
    while lo + 1 < hi
        invariant
            lo < hi <= 4294967296,
            lo * lo <= n,
            n < hi * hi,
        decreases hi - lo,
    {
        let mid = lo + (hi - lo) / 2;
        assert(mid * mid < 0x1_0000_0000_0000_0000) by (nonlinear_arith)
            requires 0 <= mid < 4294967296;
        if mid * mid <= n {
            lo = mid;
        } else {
            hi = mid;
        }
    }
    proof {
        lemma_isqrt_unique(n as nat, lo as nat);
    }
    lo
}

/// Truncating signed division, `b` positive.
pub fn div_trunc(a: i64, b: i64) -> (r: i64)
    requires
        1 <= b,
        -0x7fff_ffff_ffff_ffff <= a,
    ensures
        r == tdiv(a as int, b as int),
{
    if a >= 0 {
        (a as u64 / b as u64) as i64
    } else {
        let m = ((-a) as u64 / b as u64) as i64;
        -m
    }
}

/// Rounding toward zero moves the scaled value by less than one divisor step.
pub proof fn lemma_tdiv_close(a: int, b: int)
    requires
        1 <= b,
    ensures
        -(b - 1) <= b * tdiv(a, b) - a <= b - 1,
        a >= 0 ==> 0 <= tdiv(a, b) <= a,
        a <= 0 ==> a <= tdiv(a, b) <= 0,
    decreases if a >= 0 { 0int } else { 1int },
{
    if a >= 0 {
        vstd::arithmetic::div_mod::lemma_fundamental_div_mod(a, b);
        assert(-(b - 1) <= b * tdiv(a, b) - a <= b - 1 && 0 <= tdiv(a, b) <= a)
            by (nonlinear_arith)
            requires
                1 <= b,
                0 <= a,
                a == b * (a / b) + a % b,
                tdiv(a, b) == a / b,
        ;
    } else {
        lemma_tdiv_close(-a, b);
        let t = tdiv(-a, b);
        assert(b * tdiv(a, b) - a == -(b * t - (-a))) by (nonlinear_arith)
            requires tdiv(a, b) == -t;
    }
}

impl Vec2 {
    /// The squared Euclidean length.
    pub open spec fn norm_sq(self) -> int {
        self.x * self.x + self.y * self.y
    }

    /// Both coordinates within `b` of zero.
    pub open spec fn abs_le(self, b: int) -> bool {
        -b <= self.x <= b && -b <= self.y <= b
    }

    pub open spec fn neg_spec(self) -> Vec2 {
        Vec2 { x: (-self.x) as i64, y: (-self.y) as i64 }
    }

    pub open spec fn sub_spec(self, other: Vec2) -> Vec2 {
        Vec2 { x: (self.x - other.x) as i64, y: (self.y - other.y) as i64 }
    }

    pub open spec fn add_spec(self, other: Vec2) -> Vec2 {
        Vec2 { x: (self.x + other.x) as i64, y: (self.y + other.y) as i64 }
    }

    pub fn neg(self) -> (r: Vec2)
        requires
            self.abs_le(4 * COORD_LIMIT),
        ensures
            r == self.neg_spec(),
    {
        Vec2 { x: -self.x, y: -self.y }
    }

    pub fn sub(self, other: Vec2) -> (r: Vec2)
        requires
            self.abs_le(2 * COORD_LIMIT),
            other.abs_le(2 * COORD_LIMIT),
        ensures
            r == self.sub_spec(other),
            r.abs_le(4 * COORD_LIMIT),
    {
        Vec2 { x: self.x - other.x, y: self.y - other.y }
    }

    pub fn add(self, other: Vec2) -> (r: Vec2)
        requires
            self.abs_le(2 * COORD_LIMIT),
            other.abs_le(2 * COORD_LIMIT),
        ensures
            r == self.add_spec(other),
            r.abs_le(4 * COORD_LIMIT),
    {
        Vec2 { x: self.x + other.x, y: self.y + other.y }
    }

    /// The squared Euclidean length, exactly.
    pub fn norm_sq_e(self) -> (r: u64)
        requires
            self.abs_le(2 * COORD_LIMIT),
        ensures
            r == self.norm_sq(),
    {
        let ax: u64 = if self.x >= 0 { self.x as u64 } else { (-self.x) as u64 };
        let ay: u64 = if self.y >= 0 { self.y as u64 } else { (-self.y) as u64 };
        assert(ax * ax == self.x * self.x && ax * ax <= 4_000_000_000_000_000_000)
            by (nonlinear_arith)
            requires ax == self.x || ax == -self.x, 0 <= ax <= 2_000_000_000;
        assert(ay * ay == self.y * self.y && ay * ay <= 4_000_000_000_000_000_000)
            by (nonlinear_arith)
            requires ay == self.y || ay == -self.y, 0 <= ay <= 2_000_000_000;
        ax * ax + ay * ay
    }

    /// The floor of the Euclidean length.
    pub fn length_floor(self) -> (r: u64)
        requires
            self.abs_le(2 * COORD_LIMIT),
        ensures
            r == isqrt_spec(self.norm_sq() as nat),
    {
        let ax: u64 = if self.x >= 0 { self.x as u64 } else { (-self.x) as u64 };
        let ay: u64 = if self.y >= 0 { self.y as u64 } else { (-self.y) as u64 };
        assert(ax * ax == self.x * self.x && ax * ax <= 4_000_000_000_000_000_000)
            by (nonlinear_arith)
            requires ax == self.x || ax == -self.x, 0 <= ax <= 2_000_000_000;
        assert(ay * ay == self.y * self.y && ay * ay <= 4_000_000_000_000_000_000)
            by (nonlinear_arith)
            requires ay == self.y || ay == -self.y, 0 <= ay <= 2_000_000_000;
        isqrt(ax * ax + ay * ay)
    }
}

/// The squared distance between two positions.
pub open spec fn dist_sq(a: Vec2, b: Vec2) -> int {
    a.sub_spec(b).norm_sq()
}

/// The squared distance is symmetric.
pub proof fn lemma_dist_sq_symm(a: Vec2, b: Vec2)
    requires
        a.abs_le(2 * COORD_LIMIT as int),
        b.abs_le(2 * COORD_LIMIT as int),
    ensures
        dist_sq(a, b) == dist_sq(b, a),
{
    let v = a.sub_spec(b);
    let w = b.sub_spec(a);
    assert(w.x == -v.x && w.y == -v.y);
    assert(v.x * v.x + v.y * v.y == w.x * w.x + w.y * w.y) by (nonlinear_arith)
        requires
            w.x == -v.x && w.y == -v.y,
    ;
}

/// The floor of the distance between two positions.
pub open spec fn dist_floor(a: Vec2, b: Vec2) -> int {
    isqrt_spec(dist_sq(a, b) as nat) as int
}

} // verus!
