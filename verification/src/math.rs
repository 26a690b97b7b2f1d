//! Fixed-point scalar and vector arithmetic for the simulation core.
//!
//! World coordinates are `i64` subunits, 1000 to a pixel. All operations are
//! exact integer arithmetic with explicit truncating division, so every
//! contract states the result as a function of the inputs.

use vstd::prelude::*;

verus! {

/// Largest coordinate magnitude (in subunits) the simulation works with.
/// Small enough that squares of coordinate differences fit in `u64`.
pub const COORD_LIMIT: i64 = 0x2000_0000;

/// Truncating (round-toward-zero) division, the semantics of Rust's `/`.
pub open spec fn div_trunc(a: int, b: int) -> int {
    if a >= 0 {
        a / b
    } else {
        -((-a) / b)
    }
}

/// Floor of the square root of `n`.
pub open spec fn floor_sqrt(n: nat) -> nat
    decreases n,
{
    if n == 0 {
        0
    } else {
        let r = floor_sqrt((n - 1) as nat);
        if (r + 1) * (r + 1) <= n {
            r + 1
        } else {
            r
        }
    }
}

/// `floor_sqrt` is what its name says: its square is at most `n` and the
/// next square is beyond `n`.
pub proof fn lemma_floor_sqrt(n: nat)
    ensures
        floor_sqrt(n) * floor_sqrt(n) <= n,
        n < (floor_sqrt(n) + 1) * (floor_sqrt(n) + 1),
    decreases n,
{
    if n > 0 {
        lemma_floor_sqrt((n - 1) as nat);
        let r = floor_sqrt((n - 1) as nat);
        if (r + 1) * (r + 1) <= n {
            assert(floor_sqrt(n) == r + 1);
            // n - 1 < (r + 1) * (r + 1) <= n pins n down to (r + 1) * (r + 1).
            assert(n == (r + 1) * (r + 1));
            assert((r + 1) * (r + 1) < (r + 2) * (r + 2)) by (nonlinear_arith);
        } else {
            assert(floor_sqrt(n) == r);
            assert(r * r <= n - 1 < n);
        }
    } else {
        assert(floor_sqrt(n) == 0);
        assert(n < (floor_sqrt(n) + 1) * (floor_sqrt(n) + 1)) by (nonlinear_arith)
            requires n == 0 && floor_sqrt(n) == 0;
    }
}

/// Only zero has a zero floor square root.
pub proof fn lemma_floor_sqrt_zero(n: nat)
    requires
        floor_sqrt(n) == 0,
    ensures
        n == 0,
{
    lemma_floor_sqrt(n);
    assert(n == 0) by (nonlinear_arith)
        requires floor_sqrt(n) == 0 && n < (floor_sqrt(n) + 1) * (floor_sqrt(n) + 1);
}

/// Any value satisfying the floor-square-root bounds is `floor_sqrt(n)`.
pub proof fn lemma_floor_sqrt_unique(n: nat, r: nat)
    requires
        r * r <= n,
        n < (r + 1) * (r + 1),
    ensures
        r == floor_sqrt(n),
{
    lemma_floor_sqrt(n);
    let f = floor_sqrt(n);
    if r < f {
        assert((r + 1) * (r + 1) <= f * f) by (nonlinear_arith)
            requires r + 1 <= f;
    }
    if f < r {
        assert((f + 1) * (f + 1) <= r * r) by (nonlinear_arith)
            requires f + 1 <= r;
    }
}

/// Truncating division of a by b for positive b.
pub fn div_i64(a: i64, b: i64) -> (r: i64)
    requires
        b > 0,
    ensures
        r == div_trunc(a as int, b as int),
{
    if a >= 0 {
        let q: u64 = (a as u64) / (b as u64);
        q as i64
    } else if a == i64::MIN {
        // -a does not fit in i64; go through u64, where it does.
        let m: u64 = (i64::MAX as u64) + 1;
        let q: u64 = m / (b as u64);
        assert(q <= m);
        if q == m {
            // b == 1: the quotient is i64::MIN itself.
            i64::MIN
        } else {
            -(q as i64)
        }
    } else {
        let q: u64 = ((-a) as u64) / (b as u64);
        -(q as i64)
    }
}

/// Floor square root of `n`, by binary search on the root.
pub fn isqrt(n: u64) -> (r: u64)
    requires
        n < 0x4000_0000_0000_0000,
    ensures
        r == floor_sqrt(n as nat),
{
    let mut lo: u64 = 0;
    let mut hi: u64 = 0x8000_0000;
    assert(hi * hi == 0x4000_0000_0000_0000) by (nonlinear_arith)
        requires hi == 0x8000_0000u64;
    while lo + 1 < hi
        invariant
            lo < hi,
            hi <= 0x8000_0000,
            lo * lo <= n,
            n < hi * hi,
        decreases hi - lo,
    {
        let mid: u64 = lo + (hi - lo) / 2;
        assert(mid * mid < 0x8000_0000u64 * 0x8000_0000u64) by (nonlinear_arith)
            requires mid < 0x8000_0000u64;
        if mid * mid <= n {
            lo = mid;
        } else {
            hi = mid;
        }
    }
    proof {
        lemma_floor_sqrt_unique(n as nat, lo as nat);
    }
    lo
}

/// The squared norm of a bounded vector is nonnegative and fits well inside
/// the range `isqrt` accepts.
pub proof fn lemma_norm_sq_bound(v: Vec2)
    requires
        vec2_bounded(v, 2 * COORD_LIMIT as int),
    ensures
        0 <= norm_sq(v) < 0x4000_0000_0000_0000,
{
    assert(0 <= v.x * v.x + v.y * v.y < 0x4000_0000_0000_0000) by (nonlinear_arith)
        requires -2 * COORD_LIMIT <= v.x <= 2 * COORD_LIMIT && -2 * COORD_LIMIT <= v.y <= 2
            * COORD_LIMIT;
}

/// `v` forced into `[lo, hi]`.
pub open spec fn clamped(v: int, lo: int, hi: int) -> int {
    if v < lo {
        lo
    } else if v > hi {
        hi
    } else {
        v
    }
}

/// Forces `v` into `[lo, hi]`.
pub fn clamp_i32(v: i32, lo: i32, hi: i32) -> (r: i32)
    requires
        lo <= hi,
    ensures
        r == clamped(v as int, lo as int, hi as int),
{
    if v < lo {
        lo
    } else if v > hi {
        hi
    } else {
        v
    }
}

/// A coordinate forced into the simulation's range.
pub open spec fn clamped_coord(v: int) -> int {
    clamped(v, -COORD_LIMIT as int, COORD_LIMIT as int)
}

/// Adds a displacement to a coordinate, saturating at the simulation's
/// coordinate range instead of drifting out of it.
pub fn add_coord(x: i64, d: i64) -> (r: i64)
    requires
        -COORD_LIMIT <= x <= COORD_LIMIT,
        -0x1_0000_0000_0000 <= d <= 0x1_0000_0000_0000,
    ensures
        r == clamped_coord(x + d),
        -COORD_LIMIT <= r <= COORD_LIMIT,
{
    let s: i64 = x + d;
    if s < -COORD_LIMIT {
        -COORD_LIMIT
    } else if s > COORD_LIMIT {
        COORD_LIMIT
    } else {
        s
    }
}

/// Rounding of a subunit coordinate to whole pixels, halves away from zero.
pub open spec fn round_to_px(v: int) -> int {
    if v >= 0 {
        (v + 500) / 1000
    } else {
        -(((-v) + 500) / 1000)
    }
}

/// Converts a subunit coordinate to whole pixels, rounding halves away from
/// zero.
pub fn round_px(v: i64) -> (r: i64)
    requires
        -COORD_LIMIT <= v <= COORD_LIMIT,
    ensures
        r == round_to_px(v as int),
        -COORD_LIMIT <= r <= COORD_LIMIT,
{
    if v >= 0 {
        div_i64(v + 500, 1000)
    } else {
        -div_i64((-v) + 500, 1000)
    }
}

/// A quotient scaled by `r2 / len` is bounded by `r2` when `|v| <= len`.
pub proof fn lemma_div_bound(v: int, len: int, r2: int)
    requires
        0 < len,
        -len <= v <= len,
        0 <= r2,
    ensures
        -r2 <= div_trunc(v * r2, len) <= r2,
{
    if v >= 0 {
        assert(v * r2 <= len * r2 && 0 <= v * r2) by (nonlinear_arith)
            requires 0 <= v <= len && 0 <= r2;
        vstd::arithmetic::div_mod::lemma_div_is_ordered(v * r2, len * r2, len);
        vstd::arithmetic::div_mod::lemma_div_multiples_vanish(r2, len);
    } else {
        assert((-v) * r2 <= len * r2 && 0 <= (-v) * r2 && (-v) * r2 == -(v * r2))
            by (nonlinear_arith)
            requires -len <= v < 0 && 0 <= r2;
        vstd::arithmetic::div_mod::lemma_div_is_ordered((-v) * r2, len * r2, len);
        vstd::arithmetic::div_mod::lemma_div_multiples_vanish(r2, len);
    }
}

/// After normalization, each component of a nonzero vector is a unit-scale
/// value: at most 1000 subunits in magnitude.
pub proof fn lemma_normalized_bounds(x: int, y: int)
    requires
        x * x + y * y > 0,
        x * x + y * y < 0x4000_0000_0000_0000,
    ensures
        ({
            let m = floor_sqrt((x * x + y * y) as nat) as int;
            -1000 <= div_trunc(x * 1000, m) <= 1000 && -1000 <= div_trunc(y * 1000, m) <= 1000
                && m > 0
        }),
{
    let m = floor_sqrt((x * x + y * y) as nat) as int;
    lemma_floor_sqrt((x * x + y * y) as nat);
    if m == 0 {
        lemma_floor_sqrt_zero((x * x + y * y) as nat);
    }
    assert(x * x >= 0 && y * y >= 0) by (nonlinear_arith);
    assert(-m <= x <= m && -m <= y <= m) by (nonlinear_arith)
        requires
            x * x + y * y < (m + 1) * (m + 1) && x * x >= 0 && y * y >= 0 && m >= 0;
    lemma_div_bound(x, m, 1000);
    lemma_div_bound(y, m, 1000);
}

/// The fixed-point product of a direction component (unit scale, so at most
/// 1500 after normalization rounding) and a configured speed stays within
/// the projectile velocity bound.
pub proof fn lemma_mul_velocity_bound(v: int, s: int)
    requires
        -1500 <= v <= 1500,
        0 <= s <= 50_000,
    ensures
        -100_000 <= div_trunc(v * s, 1000) <= 100_000,
{
    assert(-75_000_000 <= v * s <= 75_000_000) by (nonlinear_arith)
        requires -1500 <= v <= 1500 && 0 <= s <= 50_000;
    if v * s >= 0 {
        vstd::arithmetic::div_mod::lemma_div_is_ordered(v * s, 75_000_000, 1000);
        vstd::arithmetic::div_mod::lemma_div_multiples_vanish(75_000, 1000);
    } else {
        vstd::arithmetic::div_mod::lemma_div_is_ordered(-(v * s), 75_000_000, 1000);
        vstd::arithmetic::div_mod::lemma_div_multiples_vanish(75_000, 1000);
    }
}

/// A two-component vector of fixed-point subunits.
#[derive(Clone, Copy, PartialEq, Eq, Structural, Debug)]
pub struct Vec2 {
    pub x: i64,
    pub y: i64,
}

/// Both components within `lim` in magnitude.
pub open spec fn vec2_bounded(v: Vec2, lim: int) -> bool {
    -lim <= v.x <= lim && -lim <= v.y <= lim
}

/// The squared length of a vector, as an unbounded integer.
pub open spec fn norm_sq(v: Vec2) -> int {
    v.x * v.x + v.y * v.y
}

impl Vec2 {
    pub fn new(x: i64, y: i64) -> (v: Vec2)
        ensures
            v.x == x,
            v.y == y,
    {
        Vec2 { x, y }
    }

    pub fn zero() -> (v: Vec2)
        ensures
            v.x == 0,
            v.y == 0,
    {
        Vec2 { x: 0, y: 0 }
    }

    /// Euclidean length, rounded down to whole subunits.
    pub fn magnitude(&self) -> (m: u64)
        requires
            vec2_bounded(*self, 2 * COORD_LIMIT as int),
        ensures
            m == floor_sqrt(norm_sq(*self) as nat),
    {
        proof {
            assert(self.x * self.x <= 4 * (COORD_LIMIT * COORD_LIMIT) && self.y * self.y <= 4 * (
            COORD_LIMIT * COORD_LIMIT) && self.x * self.x >= 0 && self.y * self.y >= 0)
                by (nonlinear_arith)
                requires -2 * COORD_LIMIT <= self.x <= 2 * COORD_LIMIT && -2 * COORD_LIMIT <= self.y
                    <= 2 * COORD_LIMIT;
        }
        let xa: u64 = if self.x >= 0 { self.x as u64 } else { (-self.x) as u64 };
        let ya: u64 = if self.y >= 0 { self.y as u64 } else { (-self.y) as u64 };
        proof {
            assert(xa * xa == self.x * self.x && ya * ya == self.y * self.y) by (nonlinear_arith)
                requires
                    xa == if self.x >= 0 { self.x as int } else { -(self.x as int) },
                    ya == if self.y >= 0 { self.y as int } else { -(self.y as int) };
        }
        isqrt(xa * xa + ya * ya)
    }

    /// Scales the vector to (approximately) unit length in subunits:
    /// each component becomes `c * 1000 / |v|`, truncated. The zero vector
    /// stays zero.
    ///
    /// Both components are divided by the magnitude of the original vector,
    /// computed once. This is a deliberate correction: an earlier revision
    /// of this routine recomputed the magnitude for the second component
    /// after the first had already been replaced, so its results were not
    /// unit length (on (3000, 4000) it gave y near 989 instead of 800).
    pub fn normalize(&mut self)
        requires
            vec2_bounded(*old(self), 2 * COORD_LIMIT as int),
        ensures
            norm_sq(*old(self)) == 0 ==> *final(self) == *old(self),
            norm_sq(*old(self)) != 0 ==> {
                let m = floor_sqrt(norm_sq(*old(self)) as nat);
                final(self).x == div_trunc(old(self).x * 1000, m as int) && final(self).y == div_trunc(
                    old(self).y * 1000,
                    m as int,
                )
            },
    {
        proof {
            lemma_norm_sq_bound(*self);
            lemma_floor_sqrt(norm_sq(*self) as nat);
        }
        let m: u64 = self.magnitude();
        if m > 0 {
            proof {
                assert(m * m <= norm_sq(*self) < 0x4000_0000_0000_0000);
                assert(m < 0x8000_0000u64) by (nonlinear_arith)
                    requires m * m < 0x4000_0000_0000_0000u64;
            }
            self.x = div_i64(self.x * 1000, m as i64);
            self.y = div_i64(self.y * 1000, m as i64);
        } else {
            proof {
                lemma_floor_sqrt_zero(norm_sq(*self) as nat);
            }
        }
    }

    /// Fixed-point scaling in place: each component becomes `c * s / 1000`,
    /// truncated.
    pub fn scale(&mut self, s: i64)
        requires
            vec2_bounded(*old(self), COORD_LIMIT as int),
            -1_000_000 <= s <= 1_000_000,
        ensures
            final(self).x == div_trunc(old(self).x * s, 1000),
            final(self).y == div_trunc(old(self).y * s, 1000),
    {
        proof {
            lemma_mul_bound(self.x as int, s as int, COORD_LIMIT as int, 1_000_000);
            lemma_mul_bound(self.y as int, s as int, COORD_LIMIT as int, 1_000_000);
        }
        self.x = div_i64(self.x * s, 1000);
        self.y = div_i64(self.y * s, 1000);
    }

    /// Fixed-point scaling, returning the scaled copy.
    pub fn scaled(&self, s: i64) -> (v: Vec2)
        requires
            vec2_bounded(*self, COORD_LIMIT as int),
            -1_000_000 <= s <= 1_000_000,
        ensures
            v.x == div_trunc(self.x * s, 1000),
            v.y == div_trunc(self.y * s, 1000),
    {
        let mut out: Vec2 = *self;
        out.scale(s);
        out
    }
}

/// |a * b| <= la * lb when |a| <= la and |b| <= lb.
proof fn lemma_mul_bound(a: int, b: int, la: int, lb: int)
    requires
        -la <= a <= la,
        -lb <= b <= lb,
        0 <= la,
        0 <= lb,
    ensures
        -(la * lb) <= a * b <= la * lb,
{
    assert(-(la * lb) <= a * b <= la * lb) by (nonlinear_arith)
        requires -la <= a <= la && -lb <= b <= lb && 0 <= la && 0 <= lb;
}

/// A three-component vector; `z` carries the depth key of a draw command.
#[derive(Clone, Copy, PartialEq, Eq, Structural, Debug)]
pub struct Vec3 {
    pub x: i64,
    pub y: i64,
    pub z: i64,
}

impl Vec3 {
    pub fn new(x: i64, y: i64, z: i64) -> (v: Vec3)
        ensures
            v.x == x,
            v.y == y,
            v.z == z,
    {
        Vec3 { x, y, z }
    }

    pub fn zero() -> (v: Vec3)
        ensures
            v.x == 0,
            v.y == 0,
            v.z == 0,
    {
        Vec3 { x: 0, y: 0, z: 0 }
    }
}

} // verus!
