//! Fixed-point plane geometry.
//!
//! Every length is a whole number of grid steps; [`UNIT`] steps make one
//! unit of field length. Distances are compared by their squares, so that
//! every comparison is exact.

use vstd::prelude::*;

verus! {

/// Grid steps in one unit of field length.
pub const UNIT: i32 = 1000;

/// A place on the field, in grid steps.
#[derive(Clone, Copy, Debug, PartialEq, Eq, Structural)]
pub struct Point {
    pub x: i32,
    pub y: i32,
}

/// `value` brought into the interval from zero to `max_value`; zero where
/// that interval is empty.
pub open spec fn spec_clip(value: int, max_value: int) -> int {
    if value > max_value {
        if max_value < 0 {
            0
        } else {
            max_value
        }
    } else if value < 0 {
        0
    } else {
        value
    }
}

/// Clamps a coordinate into the field.
pub fn clip(value: i64, max_value: i32) -> (r: i32)
    ensures
        r == spec_clip(value as int, max_value as int),
        0 <= r,
        max_value >= 0 ==> r <= max_value,
{
    if value > max_value as i64 {
        if max_value < 0 {
            0
        } else {
            max_value
        }
    } else if value < 0 {
        0
    } else {
        value as i32
    }
}

/// The square of the Euclidean distance between two points.
pub open spec fn distance_sq(a: Point, b: Point) -> int {
    (a.x - b.x) * (a.x - b.x) + (a.y - b.y) * (a.y - b.y)
}

/// The square of a difference of two coordinates.
fn square_of_difference(a: i32, b: i32) -> (r: u128)
    ensures
        r == (a - b) * (a - b),
        r <= 0xFFFF_FFFF * 0xFFFF_FFFF,
{
    let d: i64 = a as i64 - b as i64;
    let m: u128 = if d < 0 {
        (-d) as u128
    } else {
        d as u128
    };
    assert(m * m == (a - b) * (a - b)) by (nonlinear_arith)
        requires
            m == a - b || m == -(a - b),
    ;
    assert(m * m <= 0xFFFF_FFFF * 0xFFFF_FFFF) by (nonlinear_arith)
        requires
            0 <= m <= 0xFFFF_FFFF,
    ;
    m * m
}

/// Computes the squared distance between two points.
pub fn distance_squared(a: Point, b: Point) -> (r: u128)
    ensures
        r == distance_sq(a, b),
        r <= 2 * (0xFFFF_FFFF * 0xFFFF_FFFF),
{
    let dx: u128 = square_of_difference(a.x, b.x);
    let dy: u128 = square_of_difference(a.y, b.y);
    dx + dy
}

/// Whether `r` is the integer part of the square root of `n`.
pub open spec fn is_floor_sqrt(r: int, n: int) -> bool {
    0 <= r && r * r <= n < (r + 1) * (r + 1)
}

/// The integer part of the square root of `n`.
pub open spec fn floor_sqrt(n: int) -> int {
    choose|r: int| is_floor_sqrt(r, n)
}

/// A number has at most one integer square root.
pub proof fn lemma_floor_sqrt_unique(r1: int, r2: int, n: int)
    requires
        is_floor_sqrt(r1, n),
        is_floor_sqrt(r2, n),
    ensures
        r1 == r2,
{
    if r1 < r2 {
        assert((r1 + 1) * (r1 + 1) <= r2 * r2) by (nonlinear_arith)
            requires
                0 <= r1,
                r1 + 1 <= r2,
        ;
    } else if r2 < r1 {
        assert((r2 + 1) * (r2 + 1) <= r1 * r1) by (nonlinear_arith)
            requires
                0 <= r2,
                r2 + 1 <= r1,
        ;
    }
}

/// Whoever holds an integer square root of `n` holds `floor_sqrt(n)`.
pub proof fn lemma_floor_sqrt_is(r: int, n: int)
    requires
        is_floor_sqrt(r, n),
    ensures
        floor_sqrt(n) == r,
{
    lemma_floor_sqrt_unique(floor_sqrt(n), r, n);
}

/// The integer part of the square root, by bisection.
pub fn isqrt(n: u128) -> (r: u64)
    ensures
        is_floor_sqrt(r as int, n as int),
        r == floor_sqrt(n as int),
{
    let mut lo: u128 = 0;
    let mut hi: u128 = 0x1_0000_0000_0000_0000;
    assert(hi * hi > n) by (nonlinear_arith)
        requires
            hi == 0x1_0000_0000_0000_0000,
            n <= 0xFFFF_FFFF_FFFF_FFFF_FFFF_FFFF_FFFF_FFFF,
    ;
    assert(lo * lo <= n) by (nonlinear_arith)
        requires
            lo == 0,
            0 <= n,
    ;
    while hi - lo > 1
        invariant
            lo < hi <= 0x1_0000_0000_0000_0000,
            lo * lo <= n,
            n < hi * hi,
        decreases hi - lo,
    {
        let mid: u128 = lo + (hi - lo) / 2;
        assert(mid * mid <= 0xFFFF_FFFF_FFFF_FFFF * 0xFFFF_FFFF_FFFF_FFFF) by (nonlinear_arith)
            requires
                0 <= mid <= 0xFFFF_FFFF_FFFF_FFFF,
        ;
        if mid * mid <= n {
            lo = mid;
        } else {
            hi = mid;
        }
    }
    proof {
        lemma_floor_sqrt_is(lo as int, n as int);
    }
    lo as u64
}

/// How far a step of length `speed` reaches along one axis, when it points
/// along the line that rises `across` for every `along`: the integer part of
/// `speed * |along| / sqrt(along^2 + across^2)`.
pub open spec fn spec_stride(speed: int, along: int, across: int) -> int {
    floor_sqrt((speed * speed * (along * along)) / (along * along + across * across))
}

/// The stride is the largest whole number whose square, times the squared
/// length of the direction, does not exceed the squared reach along the axis.
pub proof fn lemma_stride_exact(speed: int, along: int, across: int)
    requires
        0 <= speed,
        along != 0 || across != 0,
    ensures
        0 <= spec_stride(speed, along, across) <= speed,
        spec_stride(speed, along, across) * spec_stride(speed, along, across) * (along * along
            + across * across) <= speed * speed * (along * along),
        speed * speed * (along * along) < (spec_stride(speed, along, across) + 1) * (spec_stride(
            speed,
            along,
            across,
        ) + 1) * (along * along + across * across),
{
    let num = speed * speed * (along * along);
    let den = along * along + across * across;
    let q = num / den;
    assert(den > 0 && num >= 0 && 0 <= along * along <= den) by (nonlinear_arith)
        requires
            along != 0 || across != 0,
            num == speed * speed * (along * along),
            den == along * along + across * across,
    ;
    assert(0 <= q && q * den <= num < (q + 1) * den && q <= speed * speed) by (nonlinear_arith)
        requires
            den > 0,
            num >= 0,
            q == num / den,
            num == speed * speed * (along * along),
            along * along <= den,
            0 <= along * along,
    ;
    lemma_floor_sqrt_exists(q);
    let s = floor_sqrt(q);
    assert(s <= speed) by (nonlinear_arith)
        requires
            0 <= s,
            0 <= speed,
            s * s <= q,
            q <= speed * speed,
    ;
    assert(s * s * den <= num) by (nonlinear_arith)
        requires
            s * s <= q,
            q * den <= num,
            den > 0,
    ;
    assert(num < (s + 1) * (s + 1) * den) by (nonlinear_arith)
        requires
            q < (s + 1) * (s + 1),
            num < (q + 1) * den,
            den > 0,
    ;
}

/// Every natural number has an integer square root.
pub proof fn lemma_floor_sqrt_exists(n: int)
    requires
        0 <= n,
    ensures
        is_floor_sqrt(floor_sqrt(n), n),
    decreases n,
{
    if n == 0 {
        assert(is_floor_sqrt(0, 0));
    } else {
        lemma_floor_sqrt_exists(n - 1);
        let r = floor_sqrt(n - 1);
        if (r + 1) * (r + 1) <= n {
            assert((r + 2) * (r + 2) > n) by (nonlinear_arith)
                requires
                    0 <= r,
                    n - 1 < (r + 1) * (r + 1),
            ;
            assert(is_floor_sqrt(r + 1, n));
        } else {
            assert(is_floor_sqrt(r, n));
        }
    }
}

/// The magnitude of a difference of coordinates.
fn magnitude(d: i64) -> (m: u128)
    requires
        -0xFFFF_FFFF <= d <= 0xFFFF_FFFF,
    ensures
        m == if d < 0 { -d } else { d as int },
        m <= 0xFFFF_FFFF,
{
    if d < 0 {
        (-d) as u128
    } else {
        d as u128
    }
}

/// Computes the stride of a step of length `speed` along one axis.
pub fn stride(speed: u32, along: i64, across: i64) -> (s: u32)
    requires
        -0xFFFF_FFFF <= along <= 0xFFFF_FFFF,
        -0xFFFF_FFFF <= across <= 0xFFFF_FFFF,
        along != 0 || across != 0,
    ensures
        s == spec_stride(speed as int, along as int, across as int),
        s <= speed,
{
    let a: u128 = magnitude(along);
    let c: u128 = magnitude(across);
    let v: u128 = speed as u128;
    assert(a * a == along * along && c * c == across * across) by (nonlinear_arith)
        requires
            a == along || a == -along,
            c == across || c == -across,
    ;
    assert(a * a <= 0xFFFF_FFFF * 0xFFFF_FFFF && c * c <= 0xFFFF_FFFF * 0xFFFF_FFFF && v * v
        <= 0xFFFF_FFFF * 0xFFFF_FFFF) by (nonlinear_arith)
        requires
            0 <= a <= 0xFFFF_FFFF,
            0 <= c <= 0xFFFF_FFFF,
            0 <= v <= 0xFFFF_FFFF,
    ;
    let a2: u128 = a * a;
    let c2: u128 = c * c;
    let v2: u128 = v * v;
    assert(v2 * a2 <= 0xFFFF_FFFE_0000_0001 * 0xFFFF_FFFE_0000_0001) by (nonlinear_arith)
        requires
            0 <= v2 <= 0xFFFF_FFFE_0000_0001,
            0 <= a2 <= 0xFFFF_FFFE_0000_0001,
    ;
    assert(a2 + c2 > 0) by (nonlinear_arith)
        requires
            a2 == a * a,
            c2 == c * c,
            a != 0 || c != 0,
    ;
    let num: u128 = v2 * a2;
    let den: u128 = a2 + c2;
    let q: u128 = num / den;
    let r: u64 = isqrt(q);
    proof {
        lemma_stride_exact(speed as int, along as int, across as int);
    }
    r as u32
}

/// A coordinate moved by `stride` in the direction of `delta`.
pub open spec fn spec_advance(from: int, delta: int, stride: int) -> int {
    if delta < 0 {
        from - stride
    } else {
        from + stride
    }
}

/// A coordinate moved by `stride` against the direction of `delta`.
pub open spec fn spec_retreat(from: int, delta: int, stride: int) -> int {
    if delta < 0 {
        from + stride
    } else {
        from - stride
    }
}

/// `value * factor / UNIT`, rounded towards zero.
pub open spec fn spec_scale(value: int, factor: int) -> int {
    if value < 0 {
        -(((-value) * factor) / (UNIT as int))
    } else {
        (value * factor) / (UNIT as int)
    }
}

/// Scales a signed length by `factor` thousandths, rounding towards zero.
pub fn scale(value: i32, factor: u32) -> (r: i64)
    ensures
        r == spec_scale(value as int, factor as int),
        -0x40_0000_0000_0000 <= r <= 0x40_0000_0000_0000,
        factor <= UNIT ==> i32::MIN <= r <= i32::MAX,
        value >= 0 ==> r >= 0,
        value <= 0 ==> r <= 0,
{
    let m: u64 = if value < 0 {
        (-(value as i64)) as u64
    } else {
        value as u64
    };
    assert(m * factor <= 0x8000_0000 * 0xFFFF_FFFF) by (nonlinear_arith)
        requires
            0 <= m <= 0x8000_0000,
            0 <= factor <= 0xFFFF_FFFF,
    ;
    let q: u64 = (m * factor as u64) / (UNIT as u64);
    assert((factor <= 1000 ==> m * factor <= m * 1000) && (m == 0 ==> m * factor == 0))
        by (nonlinear_arith)
        requires
            0 <= m,
            0 <= factor,
    ;
    if value < 0 {
        -(q as i64)
    } else {
        q as i64
    }
}

} // verus!
