//! Plane geometry on integer coordinates: vectors, the axis-aligned overlap
//! test, an exact integer square root, and a polynomial sine approximation
//! that drives the formation orbits.
use vstd::prelude::*;
use vstd::arithmetic::div_mod::lemma_div_pos_is_pos;
use vstd::arithmetic::div_mod::lemma_multiply_divide_le;
use crate::COORD_LIMIT;
use crate::SIZE_LIMIT;

verus! {

/// A point or extent in the plane, in fine units.
#[derive(Clone, Copy, PartialEq, Eq, Structural, Debug)]
pub struct Vec2 {
    pub x: i64,
    pub y: i64,
}

/// Magnitude of an integer.
pub open spec fn mag(x: int) -> int {
    if x < 0 {
        -x
    } else {
        x
    }
}

/// Two axis-aligned boxes given by centre and full extent overlap exactly
/// when the centre distance is below the mean of the extents on both axes
/// (half-extent semantics).
pub open spec fn overlaps(pos_a: Vec2, size_a: Vec2, pos_b: Vec2, size_b: Vec2) -> bool {
    &&& mag(pos_a.x - pos_b.x) * 2 < size_a.x + size_b.x
    &&& mag(pos_a.y - pos_b.y) * 2 < size_a.y + size_b.y
}

/// Axis-aligned overlap test between two boxes given by centre and full
/// extent.
pub fn collide(pos_a: Vec2, size_a: Vec2, pos_b: Vec2, size_b: Vec2) -> (r: bool)
    requires
        mag(pos_a.x as int) <= COORD_LIMIT,
        mag(pos_a.y as int) <= COORD_LIMIT,
        mag(pos_b.x as int) <= COORD_LIMIT,
        mag(pos_b.y as int) <= COORD_LIMIT,
        0 <= size_a.x <= SIZE_LIMIT,
        0 <= size_a.y <= SIZE_LIMIT,
        0 <= size_b.x <= SIZE_LIMIT,
        0 <= size_b.y <= SIZE_LIMIT,
    ensures
        r == overlaps(pos_a, size_a, pos_b, size_b),
{
    let dx = pos_a.x - pos_b.x;
    let dy = pos_a.y - pos_b.y;
    let ax = if dx < 0 { -dx } else { dx };
    let ay = if dy < 0 { -dy } else { dy };
    ax * 2 < size_a.x + size_b.x && ay * 2 < size_a.y + size_b.y
}

/// Smallest nonnegative integer whose square is at least `n`.
pub fn isqrt_ceil(n: i64) -> (r: i64)
    requires
        0 <= n <= 40_000_000_000_000_000,
    ensures
        0 <= r <= 200_000_000,
        n <= r * r,
        r > 0 ==> (r - 1) * (r - 1) < n,
        r == 0 ==> n == 0,
        r == sqrt_ceil_spec(n as int),
{
    let mut lo: i64 = 0;
    let mut hi: i64 = 200_000_000;
    while lo < hi
        invariant
            0 <= lo <= hi <= 200_000_000,
            n <= hi * hi,
            lo > 0 ==> (lo - 1) * (lo - 1) < n,
            0 <= n,
        decreases hi - lo,
    {
        let mid = lo + (hi - lo) / 2;
        proof {
            lemma_div_pos_is_pos(hi - lo, 2);
            lemma_multiply_divide_le(hi - lo, 2, hi - lo);
        }
        assert(mid * mid <= 40_000_000_000_000_000) by (nonlinear_arith)
            requires 0 <= mid <= 200_000_000;
        if mid * mid >= n {
            hi = mid;
        } else {
            lo = mid + 1;
        }
    }
    assert(lo == hi && n <= hi * hi);
    assert(lo == 0 ==> n <= 0) by (nonlinear_arith)
        requires lo == hi && n <= hi * hi;
    proof {
        lemma_sqrt_ceil_unique(n as int, lo as int);
    }
    lo
}

/// Smallest nonnegative integer whose square is at least `n`, as a
/// mathematical definition.
pub open spec fn sqrt_ceil_spec(n: int) -> int
    decreases n,
{
    if n <= 0 {
        0
    } else {
        let s = sqrt_ceil_spec(n - 1);
        if s * s >= n {
            s
        } else {
            s + 1
        }
    }
}

pub proof fn lemma_sqrt_ceil_props(n: int)
    requires
        0 <= n,
    ensures
        0 <= sqrt_ceil_spec(n),
        n <= sqrt_ceil_spec(n) * sqrt_ceil_spec(n),
        sqrt_ceil_spec(n) > 0 ==> (sqrt_ceil_spec(n) - 1) * (sqrt_ceil_spec(n) - 1) < n,
        sqrt_ceil_spec(n) == 0 ==> n == 0,
    decreases n,
{
    if n > 0 {
        lemma_sqrt_ceil_props(n - 1);
        let s = sqrt_ceil_spec(n - 1);
        if s * s >= n {
        } else {
            assert(n - 1 <= s * s);
            assert(n <= (s + 1) * (s + 1)) by (nonlinear_arith)
                requires n - 1 <= s * s, 0 <= s;
            assert((s + 1 - 1) * (s + 1 - 1) < n);
        }
    }
}

/// The three characteristic facts pin the ceiling square root down, so an
/// executable search returning any integer with them returns exactly it.
pub proof fn lemma_sqrt_ceil_unique(n: int, r: int)
    requires
        0 <= n,
        0 <= r,
        n <= r * r,
        r > 0 ==> (r - 1) * (r - 1) < n,
        r == 0 ==> n == 0,
    ensures
        r == sqrt_ceil_spec(n),
{
    lemma_sqrt_ceil_props(n);
    let s = sqrt_ceil_spec(n);
    if r < s {
        assert(s > 0);
        assert(r <= s - 1);
        assert(r * r <= (s - 1) * (s - 1)) by (nonlinear_arith)
            requires 0 <= r, r <= s - 1;
        assert(false);
    } else if s < r {
        assert(r > 0);
        assert(s <= r - 1);
        assert(s * s <= (r - 1) * (r - 1)) by (nonlinear_arith)
            requires 0 <= s, s <= r - 1;
        assert(false);
    }
}

/// Rational sine approximation over half a turn, scaled by 1000: for `x` in
/// tenth-degrees within `[0, 1800]` the value tracks `1000 * sin(x)` to
/// within a few parts per thousand.
pub open spec fn sin_half_spec(x: int) -> int {
    4000 * (x * (1800 - x)) / (4050000 - x * (1800 - x))
}

pub proof fn lemma_sin_half_bounds(x: int)
    requires
        0 <= x <= 1800,
    ensures
        0 <= x * (1800 - x) <= 810000,
        0 <= sin_half_spec(x) <= 1000,
{
    let p = x * (1800 - x);
    assert(0 <= p <= 810000) by (nonlinear_arith)
        requires p == x * (1800 - x), 0 <= x <= 1800;
    let d = 4050000 - p;
    lemma_div_pos_is_pos(4000 * p, d);
    assert(4000 * p <= d * 1000) by (nonlinear_arith)
        requires 0 <= p <= 810000, d == 4050000 - p;
    lemma_multiply_divide_le(4000 * p, d, 1000);
}

/// Sine over a whole turn of 3600 tenth-degree units, scaled by 1000.
pub open spec fn sin_milli_spec(a: int) -> int {
    if a < 1800 {
        sin_half_spec(a)
    } else {
        -sin_half_spec(a - 1800)
    }
}

/// Cosine over a whole turn, scaled by 1000: the sine a quarter turn ahead.
pub open spec fn cos_milli_spec(a: int) -> int {
    sin_milli_spec(
        if a + 900 < 3600 {
            a + 900
        } else {
            a + 900 - 3600
        },
    )
}

pub proof fn lemma_sin_milli_bounds(a: int)
    requires
        0 <= a < 3600,
    ensures
        -1000 <= sin_milli_spec(a) <= 1000,
        -1000 <= cos_milli_spec(a) <= 1000,
{
    if a < 1800 {
        lemma_sin_half_bounds(a);
    } else {
        lemma_sin_half_bounds(a - 1800);
    }
    let b = if a + 900 < 3600 { a + 900 } else { a + 900 - 3600 };
    if b < 1800 {
        lemma_sin_half_bounds(b);
    } else {
        lemma_sin_half_bounds(b - 1800);
    }
}

fn sin_half(x: i64) -> (r: i64)
    requires
        0 <= x <= 1800,
    ensures
        r == sin_half_spec(x as int),
        0 <= r <= 1000,
{
    proof {
        lemma_sin_half_bounds(x as int);
    }
    let p = x * (1800 - x);
    (4000 * p) / (4050000 - p)
}

/// Sine of `a` tenth-degrees, scaled by 1000.
pub fn sin_milli(a: i64) -> (r: i64)
    requires
        0 <= a < 3600,
    ensures
        r == sin_milli_spec(a as int),
        -1000 <= r <= 1000,
{
    if a < 1800 {
        sin_half(a)
    } else {
        -sin_half(a - 1800)
    }
}

/// Cosine of `a` tenth-degrees, scaled by 1000.
pub fn cos_milli(a: i64) -> (r: i64)
    requires
        0 <= a < 3600,
    ensures
        r == cos_milli_spec(a as int),
        -1000 <= r <= 1000,
{
    let b = if a + 900 < 3600 {
        a + 900
    } else {
        a + 900 - 3600
    };
    sin_milli(b)
}

/// Product of a nonnegative length with a factor scaled by 1000, rounded
/// toward zero.
pub open spec fn scale_milli_spec(r: int, t: int) -> int {
    if t < 0 {
        -(r * (-t) / 1000)
    } else {
        r * t / 1000
    }
}

pub proof fn lemma_scale_milli_bounds(r: int, t: int)
    requires
        0 <= r,
        -1000 <= t <= 1000,
    ensures
        mag(scale_milli_spec(r, t)) <= r,
{
    let u = if t < 0 { -t } else { t };
    lemma_div_pos_is_pos(r * u, 1000);
    assert(r * u <= 1000 * r) by (nonlinear_arith)
        requires 0 <= r, 0 <= u <= 1000;
    lemma_multiply_divide_le(r * u, 1000, r);
}

/// Scale `r` by the factor `t / 1000`, rounding toward zero.
pub fn scale_milli(r: i64, t: i64) -> (res: i64)
    requires
        0 <= r <= 1_000_000,
        -1000 <= t <= 1000,
    ensures
        res == scale_milli_spec(r as int, t as int),
        mag(res as int) <= r,
{
    proof {
        lemma_scale_milli_bounds(r as int, t as int);
    }
    if t < 0 {
        -((r * (-t)) / 1000)
    } else {
        (r * t) / 1000
    }
}

} // verus!
