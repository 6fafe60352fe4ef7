//! Fixed-point scalars for world-space math.
//!
//! A world quantity (a coordinate, a speed, a duration in seconds) is an
//! `i64` counting thousandths: `SCALE` steps make one unit. All gameplay
//! arithmetic is exact integer arithmetic on these scalars; division is
//! always performed on magnitudes, so truncation is toward zero.

use vstd::prelude::*;

verus! {

/// Fixed-point steps per world unit.
pub const SCALE: i64 = 1000;

/// Largest magnitude a world coordinate may take; position updates clamp
/// here, so a squared distance always fits in 64 bits.
pub const POS_LIMIT: i64 = 1_000_000_000;

/// Largest tick duration the simulation accepts (in fixed-point seconds).
pub const DT_MAX: i64 = 100_000;

/// `v` forced into `[lo, hi]`.
pub open spec fn clamp_spec(v: int, lo: int, hi: int) -> int {
    if v < lo {
        lo
    } else if v > hi {
        hi
    } else {
        v
    }
}

/// `r` is the integer square root of `n` rounded down.
pub open spec fn is_sqrt_floor(n: int, r: int) -> bool {
    0 <= r && r * r <= n && n < (r + 1) * (r + 1)
}

/// The integer square root of `n` rounded down (for `n >= 0`).
pub open spec fn sqrt_floor(n: int) -> int {
    choose|r: int| is_sqrt_floor(n, r)
}

/// Every nonnegative integer has a rounded-down square root.
pub proof fn lemma_sqrt_floor_exists(n: nat)
    ensures
        is_sqrt_floor(n as int, sqrt_floor(n as int)),
    decreases n,
{
    if n == 0 {
        assert(is_sqrt_floor(0, 0));
    } else {
        lemma_sqrt_floor_exists((n - 1) as nat);
        let r = sqrt_floor(n - 1);
        assert(is_sqrt_floor(n - 1, r));
        if (r + 1) * (r + 1) <= n {
            // n - 1 < (r + 1)^2 <= n forces n == (r + 1)^2.
            assert(n == (r + 1) * (r + 1));
            assert((r + 2) * (r + 2) > n) by (nonlinear_arith)
                requires
                    n == (r + 1) * (r + 1),
                    r >= 0,
            ;
            assert(is_sqrt_floor(n as int, r + 1));
        } else {
            assert(is_sqrt_floor(n as int, r));
        }
    }
}

/// The rounded-down square root is unique.
pub proof fn lemma_sqrt_floor_unique(n: int, r: int)
    requires
        is_sqrt_floor(n, r),
    ensures
        sqrt_floor(n) == r,
{
    let r2 = sqrt_floor(n);
    assert(is_sqrt_floor(n, r2));
    if r2 < r {
        assert((r2 + 1) * (r2 + 1) <= r * r) by (nonlinear_arith)
            requires
                0 <= r2,
                r2 + 1 <= r,
        ;
    }
    if r < r2 {
        assert((r + 1) * (r + 1) <= r2 * r2) by (nonlinear_arith)
            requires
                0 <= r,
                r + 1 <= r2,
        ;
    }
}

/// `a * m / d` with the division truncated toward zero.
pub open spec fn mul_div_trunc(a: int, m: int, d: int) -> int {
    if a >= 0 {
        (a * m) / d
    } else {
        -(((-a) * m) / d)
    }
}

/// `v` forced into `[lo, hi]`.
pub fn clamp_i64(v: i64, lo: i64, hi: i64) -> (r: i64)
    requires
        lo <= hi,
    ensures
        r == clamp_spec(v as int, lo as int, hi as int),
{
    if v < lo {
        lo
    } else if v > hi {
        hi
    } else {
        v
    }
}

/// The magnitude of `a` as an unsigned value.
pub fn abs_u64(a: i64) -> (r: u64)
    requires
        a != i64::MIN,
    ensures
        r == if a >= 0 { a as int } else { -a as int },
{
    if a >= 0 {
        a as u64
    } else {
        (-a) as u64
    }
}

/// Integer square root, rounded down.
pub fn isqrt(n: u64) -> (r: u64)
    ensures
        is_sqrt_floor(n as int, r as int),
        r == sqrt_floor(n as int),
{
    let mut lo: u64 = 0;
    let mut hi: u64 = 4_294_967_296;
    assert(n < hi * hi) by (nonlinear_arith)
        requires
            hi == 0x1_0000_0000u64,
            n <= u64::MAX,
    ;
    while lo + 1 < hi
        invariant
            lo < hi <= 4_294_967_296,
            lo * lo <= n,
            n < hi * hi,
        decreases hi - lo,
    {
        let mid = lo + (hi - lo) / 2;
        assert(lo < mid < hi);
        assert(mid * mid < 0x1_0000_0000_0000_0000) by (nonlinear_arith)
            requires
                mid < 0x1_0000_0000u64,
        ;
        if mid * mid <= n {
            lo = mid;
        } else {
            hi = mid;
        }
    }
    proof {
        lemma_sqrt_floor_unique(n as int, lo as int);
    }
    lo
}

/// `a * m / d` on a signed `a`, truncating toward zero, computed on magnitudes.
pub fn mul_div_signed(a: i64, m: u64, d: u64) -> (q: i64)
    requires
        d > 0,
        a != i64::MIN,
        (if a >= 0 { a as int } else { -a as int }) * m < 0x8000_0000_0000_0000,
    ensures
        q == mul_div_trunc(a as int, m as int, d as int),
{
    let mag = abs_u64(a);
    let prod = mag * m;
    let quot = prod / d;
    if a >= 0 {
        quot as i64
    } else {
        proof {
            assert(quot <= prod) by (nonlinear_arith)
                requires
                    d > 0,
                    quot == prod / d,
            ;
        }
        -(quot as i64)
    }
}

/// Squares of world-bounded differences fit comfortably in 64 bits.
pub proof fn lemma_dist2_bounds(dx: int, dy: int)
    by (nonlinear_arith)
    requires
        -2_000_000_000 <= dx <= 2_000_000_000,
        -2_000_000_000 <= dy <= 2_000_000_000,
    ensures
        0 <= dx * dx <= 4_000_000_000_000_000_000,
        0 <= dy * dy <= 4_000_000_000_000_000_000,
        0 <= dx * dx + dy * dy <= 8_000_000_000_000_000_000,
{
}

/// No component of a vector exceeds the rounded-down norm.
pub proof fn lemma_component_le_norm(dx: int, dy: int)
    ensures
        -sqrt_floor(dx * dx + dy * dy) <= dx <= sqrt_floor(dx * dx + dy * dy),
        -sqrt_floor(dx * dx + dy * dy) <= dy <= sqrt_floor(dx * dx + dy * dy),
        sqrt_floor(dx * dx + dy * dy) >= 0,
{
    assert(dx * dx >= 0 && dy * dy >= 0) by (nonlinear_arith);
    let n = dx * dx + dy * dy;
    lemma_sqrt_floor_exists(n as nat);
    let d = sqrt_floor(n);
    assert(n < (d + 1) * (d + 1));
    if dx > d {
        assert(dx * dx >= (d + 1) * (d + 1)) by (nonlinear_arith)
            requires
                dx >= d + 1,
                d >= 0,
        ;
    }
    if dx < -d {
        assert(dx * dx >= (d + 1) * (d + 1)) by (nonlinear_arith)
            requires
                dx <= -(d + 1),
                d >= 0,
        ;
    }
    if dy > d {
        assert(dy * dy >= (d + 1) * (d + 1)) by (nonlinear_arith)
            requires
                dy >= d + 1,
                d >= 0,
        ;
    }
    if dy < -d {
        assert(dy * dy >= (d + 1) * (d + 1)) by (nonlinear_arith)
            requires
                dy <= -(d + 1),
                d >= 0,
        ;
    }
}

/// Scaling a component no longer than the norm stays within the scale.
pub proof fn lemma_unit_bound(dx: int, m: int, d: int)
    by (nonlinear_arith)
    requires
        -d <= dx <= d,
        d > 0,
        m >= 0,
    ensures
        -m <= mul_div_trunc(dx, m, d) <= m,
{
}

/// `a / d` truncated toward zero.
pub open spec fn div_trunc(a: int, d: int) -> int {
    if a >= 0 {
        a / d
    } else {
        -((-a) / d)
    }
}

/// `a / d` truncated toward zero.
pub fn div_trunc_i64(a: i64, d: i64) -> (r: i64)
    requires
        d > 0,
        a != i64::MIN,
    ensures
        r == div_trunc(a as int, d as int),
{
    if a >= 0 {
        a / d
    } else {
        -((-a) / d)
    }
}

/// Squares of window-projected differences still fit in 64 bits.
pub proof fn lemma_dist2_bounds_wide(dx: int, dy: int)
    by (nonlinear_arith)
    requires
        -2_100_000_000 <= dx <= 2_100_000_000,
        -2_100_000_000 <= dy <= 2_100_000_000,
    ensures
        0 <= dx * dx <= 4_410_000_000_000_000_000,
        0 <= dy * dy <= 4_410_000_000_000_000_000,
        0 <= dx * dx + dy * dy <= 8_820_000_000_000_000_000,
{
}

/// `a * m / d` on a signed `a` with `|a| <= d`, truncating toward zero,
/// computed through a 128-bit intermediate; the result stays within `m`.
pub fn mul_div_signed_wide(a: i64, m: u64, d: u64) -> (q: i64)
    requires
        d > 0,
        a != i64::MIN,
        (if a >= 0 { a as int } else { -a as int }) <= d,
        m < 0x8000_0000_0000_0000,
    ensures
        q == mul_div_trunc(a as int, m as int, d as int),
        -(m as int) <= q <= m,
{
    let mag = abs_u64(a);
    proof {
        assert((mag as int) * (m as int) < 0x1_0000_0000_0000_0000_0000_0000_0000_0000)
            by (nonlinear_arith)
            requires
                mag < 0x1_0000_0000_0000_0000,
                m < 0x1_0000_0000_0000_0000,
        ;
    }
    let prod = (mag as u128) * (m as u128);
    let quot = prod / (d as u128);
    proof {
        assert(quot <= m) by (nonlinear_arith)
            requires
                mag <= d,
                d > 0,
                prod == (mag as int) * (m as int),
                quot == (prod as int) / (d as int),
        ;
    }
    let q64 = quot as u64;
    if a >= 0 {
        q64 as i64
    } else {
        -(q64 as i64)
    }
}

/// `a / d` truncated toward zero, for either sign of `d`.
pub open spec fn div_trunc2(a: int, d: int) -> int {
    if d >= 0 {
        div_trunc(a, d)
    } else {
        div_trunc(-a, -d)
    }
}

/// `a / d` truncated toward zero, for either sign of `d`.
pub fn div_trunc2_i64(a: i64, d: i64) -> (r: i64)
    requires
        d != 0,
        a != i64::MIN,
        d != i64::MIN,
    ensures
        r == div_trunc2(a as int, d as int),
{
    if d >= 0 {
        div_trunc_i64(a, d)
    } else {
        div_trunc_i64(-a, -d)
    }
}

/// Dividing by `d` keeps a magnitude bound scaled down by `d`.
pub proof fn lemma_div_trunc_range(a: int, d: int, b: int)
    requires
        d > 0,
        0 <= b,
        -(b * d) <= a <= b * d,
    ensures
        -b <= div_trunc(a, d) <= b,
{
    if a >= 0 {
        assert(a / d <= b) by (nonlinear_arith)
            requires
                d > 0,
                0 <= a <= b * d,
        ;
    } else {
        assert((-a) / d <= b) by (nonlinear_arith)
            requires
                d > 0,
                0 <= -a <= b * d,
        ;
    }
}

/// Truncating division never grows a magnitude bound.
pub proof fn lemma_div_trunc2_bound(a: int, d: int, b: int)
    requires
        d != 0,
        -b <= a <= b,
        0 <= b,
    ensures
        -b <= div_trunc2(a, d) <= b,
{
    let dd = if d >= 0 { d } else { -d };
    let aa = if d >= 0 { a } else { -a };
    if aa >= 0 {
        assert(aa / dd <= aa) by (nonlinear_arith)
            requires
                dd >= 1,
                aa >= 0,
        ;
    } else {
        assert((-aa) / dd <= -aa) by (nonlinear_arith)
            requires
                dd >= 1,
                -aa >= 0,
        ;
    }
}

} // verus!
