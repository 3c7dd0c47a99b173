//! Integer plane geometry: bounded 2D vectors, saturation, scaled
//! multiplication and integer square roots, shared by the layout engine and
//! the hit tests.

use vstd::prelude::*;

verus! {

/// Largest coordinate magnitude the graph store accepts; keeps squared
/// distances inside `i64`.
pub const POS_LIMIT: i64 = 0x2000_0000;

/// Largest magnitude a force accumulator component may reach; accumulation
/// saturates here.
pub const FORCE_LIMIT: i64 = 0x100_0000_0000;

/// Largest magnitude accepted for a force configuration value.
pub const CONF_LIMIT: i64 = 0x2000_0000;

/// Largest frame delta, in milliseconds, one layout tick accepts.
pub const DT_LIMIT: u64 = 0x10_0000;

/// A point or force on the canvas, in integer canvas units.
#[derive(Clone, Copy, PartialEq, Eq, Structural, Debug)]
pub struct Vec2 {
    pub x: i64,
    pub y: i64,
}

pub open spec fn in_bounds_spec(v: Vec2, lim: int) -> bool {
    -lim <= v.x <= lim && -lim <= v.y <= lim
}

pub open spec fn clamp_spec(x: int, lim: int) -> int {
    if x < -lim {
        -lim
    } else if x > lim {
        lim
    } else {
        x
    }
}

/// `a * b / c` with the division truncated toward zero, as a single
/// mathematical definition shared by specs and executable code.
pub open spec fn mul_div_spec(a: int, b: int, c: int) -> int {
    let p = a * b;
    if p >= 0 {
        p / c
    } else {
        -((-p) / c)
    }
}

/// Floor of the square root, defined by counting up.
pub open spec fn sqrt_floor(n: int) -> int
    decreases n,
{
    if n <= 0 {
        0
    } else {
        let r = sqrt_floor(n - 1);
        if (r + 1) * (r + 1) <= n {
            r + 1
        } else {
            r
        }
    }
}

pub open spec fn is_sqrt(n: int, r: int) -> bool {
    0 <= r && r * r <= n < (r + 1) * (r + 1)
}

pub proof fn lemma_sqrt_floor_is_sqrt(n: int)
    requires
        0 <= n,
    ensures
        is_sqrt(n, sqrt_floor(n)),
    decreases n,
{
    if n > 0 {
        lemma_sqrt_floor_is_sqrt(n - 1);
        let r = sqrt_floor(n - 1);
        if (r + 1) * (r + 1) <= n {
            assert((r + 2) * (r + 2) > n) by (nonlinear_arith)
                requires
                    0 <= r,
                    n - 1 < (r + 1) * (r + 1),
            ;
        }
    } else {
        assert(sqrt_floor(n) == 0);
        assert(0 * 0 <= 0 && 0 < (0 + 1) * (0 + 1)) by (nonlinear_arith);
    }
}

pub proof fn lemma_sqrt_unique(n: int, r: int)
    requires
        0 <= n,
        is_sqrt(n, r),
    ensures
        r == sqrt_floor(n),
{
    lemma_sqrt_floor_is_sqrt(n);
    let s = sqrt_floor(n);
    if r < s {
        assert((r + 1) * (r + 1) <= s * s) by (nonlinear_arith)
            requires
                0 <= r,
                r + 1 <= s,
        ;
    }
    if s < r {
        assert((s + 1) * (s + 1) <= r * r) by (nonlinear_arith)
            requires
                0 <= s,
                s + 1 <= r,
        ;
    }
}

/// Truncated-toward-zero division never grows a nonnegative quotient past
/// `|a| * |b| / c`, and shrinking `|a|` below `c` bounds it by `|b|`.
pub proof fn lemma_mul_div_bound(a: int, b: int, c: int)
    requires
        1 <= c,
        -c <= a <= c,
    ensures
        -abs_spec(b) <= mul_div_spec(a, b, c) <= abs_spec(b),
{
    let p = a * b;
    let ab = abs_spec(b);
    assert(-(c * ab) <= a * b && a * b <= c * ab) by (nonlinear_arith)
        requires
            -c <= a <= c,
            0 <= ab,
            -ab <= b && b <= ab,
    ;
    if p >= 0 {
        vstd::arithmetic::div_mod::lemma_div_is_ordered(p, c * abs_spec(b), c);
        vstd::arithmetic::div_mod::lemma_div_multiples_vanish(abs_spec(b), c);
        vstd::arithmetic::div_mod::lemma_div_pos_is_pos(p, c);
    } else {
        vstd::arithmetic::div_mod::lemma_div_is_ordered(-p, c * abs_spec(b), c);
        vstd::arithmetic::div_mod::lemma_div_multiples_vanish(abs_spec(b), c);
        vstd::arithmetic::div_mod::lemma_div_pos_is_pos(-p, c);
    }
}

pub open spec fn abs_spec(x: int) -> int {
    if x >= 0 {
        x
    } else {
        -x
    }
}

/// Quotients are never larger in magnitude than the product itself.
pub proof fn lemma_mul_div_product_bound(a: int, b: int, c: int)
    requires
        1 <= c,
    ensures
        -(abs_spec(a) * abs_spec(b)) <= mul_div_spec(a, b, c) <= abs_spec(a) * abs_spec(b),
{
    let p = a * b;
    assert((if a * b >= 0 { a * b } else { -(a * b) }) == (if a >= 0 { a } else { -a }) * (if b >= 0 {
        b
    } else {
        -b
    })) by (nonlinear_arith);
    if p >= 0 {
        vstd::arithmetic::div_mod::lemma_div_pos_is_pos(p, c);
        vstd::arithmetic::div_mod::lemma_div_nonincreasing(p, c);
    } else {
        vstd::arithmetic::div_mod::lemma_div_pos_is_pos(-p, c);
        vstd::arithmetic::div_mod::lemma_div_nonincreasing(-p, c);
    }
}

/// The scaled product is symmetric in its two factors.
pub proof fn lemma_mul_div_flip(a: int, b: int, c: int)
    requires
        1 <= c,
    ensures
        mul_div_spec(a, b, c) == mul_div_spec(b, a, c),
{
    assert(a * b == b * a) by (nonlinear_arith);
}

/// `a * b / c`, truncated toward zero.
pub fn mul_div(a: i64, b: i64, c: i64) -> (r: i64)
    requires
        1 <= c,
        i64::MIN < mul_div_spec(a as int, b as int, c as int) <= i64::MAX,
    ensures
        r as int == mul_div_spec(a as int, b as int, c as int),
{
    proof {
        assert(-0x8000_0000_0000_0000 * 0x8000_0000_0000_0000 <= (a as int) * (b as int) <= 0x8000_0000_0000_0000 * 0x8000_0000_0000_0000)
            by (nonlinear_arith)
            requires
                -0x8000_0000_0000_0000 <= (a as int) && (a as int) <= 0x7fff_ffff_ffff_ffff,
                -0x8000_0000_0000_0000 <= (b as int) && (b as int) <= 0x7fff_ffff_ffff_ffff,
        ;
    }
    let p: i128 = (a as i128) * (b as i128);
    if p >= 0 {
        proof {
            vstd::arithmetic::div_mod::lemma_div_pos_is_pos(p as int, c as int);
            vstd::arithmetic::div_mod::lemma_div_nonincreasing(p as int, c as int);
        }
        (p / (c as i128)) as i64
    } else {
        proof {
            vstd::arithmetic::div_mod::lemma_div_pos_is_pos(-(p as int), c as int);
            vstd::arithmetic::div_mod::lemma_div_nonincreasing(-(p as int), c as int);
        }
        (-((-p) / (c as i128))) as i64
    }
}

/// Clamp `x` into `[-lim, lim]`.
pub fn clamp64(x: i64, lim: i64) -> (r: i64)
    requires
        0 <= lim,
    ensures
        r as int == clamp_spec(x as int, lim as int),
{
    if x < -lim {
        -lim
    } else if x > lim {
        lim
    } else {
        x
    }
}

/// Integer square root by bisection.
pub fn isqrt(n: u64) -> (r: u64)
    requires
        n < 0x4000_0000_0000_0000,
    ensures
        r as int == sqrt_floor(n as int),
        r <= 0x8000_0000,
{
    let mut lo: u64 = 0;
    let mut hi: u64 = 0x8000_0000;
    proof {
        assert((hi as int) * (hi as int) == 0x4000_0000_0000_0000) by (nonlinear_arith)
            requires
                hi == 0x8000_0000u64,
        ;
    }
    while lo + 1 < hi
        invariant
            lo < hi,
            hi <= 0x8000_0000,
            (lo as int) * (lo as int) <= n as int,
            (n as int) < (hi as int) * (hi as int),
        decreases hi - lo,
    {
        let mid = lo + (hi - lo) / 2;
        proof {
            assert((mid as int) * (mid as int) < 0x4000_0000_0000_0000) by (nonlinear_arith)
                requires
                    0 <= (mid as int) && (mid as int) < 0x8000_0000,
            ;
        }
        if mid * mid <= n {
            lo = mid;
        } else {
            hi = mid;
        }
    }
    proof {
        lemma_sqrt_unique(n as int, lo as int);
    }
    lo
}

/// Neither coordinate difference can exceed the rounded-down distance.
pub proof fn lemma_component_le_dist(p: Vec2, q: Vec2)
    requires
        in_bounds_spec(p, POS_LIMIT as int),
        in_bounds_spec(q, POS_LIMIT as int),
    ensures
        abs_spec(p.x - q.x) <= dist_spec(p, q),
        abs_spec(p.y - q.y) <= dist_spec(p, q),
{
    let d2 = dist2_spec(p, q);
    lemma_dist2_bounds(p, q);
    lemma_sqrt_floor_is_sqrt(d2);
    let d = sqrt_floor(d2);
    let dx = p.x - q.x;
    let dy = p.y - q.y;
    if abs_spec(dx) > d {
        assert((d + 1) * (d + 1) <= dx * dx + dy * dy) by (nonlinear_arith)
            requires
                0 <= d + 1,
                d + 1 <= abs_spec(dx),
                abs_spec(dx) == if dx >= 0 { dx } else { -dx },
        ;
    }
    if abs_spec(dy) > d {
        assert((d + 1) * (d + 1) <= dx * dx + dy * dy) by (nonlinear_arith)
            requires
                0 <= d + 1,
                d + 1 <= abs_spec(dy),
                abs_spec(dy) == if dy >= 0 { dy } else { -dy },
        ;
    }
}

pub open spec fn dist2_spec(p: Vec2, q: Vec2) -> int {
    (p.x - q.x) * (p.x - q.x) + (p.y - q.y) * (p.y - q.y)
}

/// Distance between two points, rounded down to an integer.
pub open spec fn dist_spec(p: Vec2, q: Vec2) -> int {
    sqrt_floor(dist2_spec(p, q))
}

pub proof fn lemma_dist2_bounds(p: Vec2, q: Vec2)
    requires
        in_bounds_spec(p, POS_LIMIT as int),
        in_bounds_spec(q, POS_LIMIT as int),
    ensures
        0 <= dist2_spec(p, q) < 0x4000_0000_0000_0000,
        dist2_spec(p, q) == 0 <==> p == q,
{
    let dx = p.x - q.x;
    let dy = p.y - q.y;
    assert(0 <= dx * dx <= 0x1000_0000_0000_0000 && (dx * dx == 0 <==> dx == 0)) by (nonlinear_arith)
        requires
            -0x4000_0000 <= dx <= 0x4000_0000,
    ;
    assert(0 <= dy * dy <= 0x1000_0000_0000_0000 && (dy * dy == 0 <==> dy == 0)) by (nonlinear_arith)
        requires
            -0x4000_0000 <= dy <= 0x4000_0000,
    ;
}

/// Distance between two in-bounds points.
pub fn distance(p: Vec2, q: Vec2) -> (d: i64)
    requires
        in_bounds_spec(p, POS_LIMIT as int),
        in_bounds_spec(q, POS_LIMIT as int),
    ensures
        d as int == dist_spec(p, q),
        0 <= d <= 0x8000_0000,
        d == 0 <==> p == q,
{
    proof {
        lemma_dist2_bounds(p, q);
    }
    let dx = p.x - q.x;
    let dy = p.y - q.y;
    proof {
        assert(0 <= (dx as int) * (dx as int) <= 0x1000_0000_0000_0000) by (nonlinear_arith)
            requires
                -0x4000_0000 <= (dx as int) && (dx as int) <= 0x4000_0000,
        ;
        assert(0 <= (dy as int) * (dy as int) <= 0x1000_0000_0000_0000) by (nonlinear_arith)
            requires
                -0x4000_0000 <= (dy as int) && (dy as int) <= 0x4000_0000,
        ;
    }
    let d2 = (dx * dx + dy * dy) as u64;
    let d = isqrt(d2);
    proof {
        lemma_sqrt_floor_is_sqrt(d2 as int);
        assert(is_sqrt(d2 as int, d as int));
        if p == q {
            assert(d2 as int == 0);
            assert(d as int == 0) by (nonlinear_arith)
                requires
                    0 <= d as int,
                    (d as int) * (d as int) <= 0,
            ;
        }
        if d == 0 {
            assert(d2 as int == 0) by (nonlinear_arith)
                requires
                    0 <= d2 as int,
                    (d2 as int) < ((d as int) + 1) * ((d as int) + 1),
                    d as int == 0,
            ;
        }
    }
    d as i64
}

impl Vec2 {
    pub fn new(x: i64, y: i64) -> (v: Vec2)
        ensures
            v == (Vec2 { x, y }),
    {
        Vec2 { x, y }
    }

    /// The zero vector.
    pub fn zero() -> (v: Vec2)
        ensures
            v == (Vec2 { x: 0, y: 0 }),
    {
        Vec2 { x: 0, y: 0 }
    }
}

/// Componentwise sum clamped into `[-lim, lim]`.
pub open spec fn add_clamped_spec(a: Vec2, b: Vec2, lim: int) -> Vec2 {
    Vec2 { x: clamp_spec(a.x + b.x, lim) as i64, y: clamp_spec(a.y + b.y, lim) as i64 }
}

/// Componentwise sum, saturating at `lim`.
pub fn add_clamped(a: Vec2, b: Vec2, lim: i64) -> (r: Vec2)
    requires
        0 <= lim,
        -0x4000_0000_0000_0000 <= a.x + b.x <= 0x4000_0000_0000_0000,
        -0x4000_0000_0000_0000 <= a.y + b.y <= 0x4000_0000_0000_0000,
    ensures
        r == add_clamped_spec(a, b, lim as int),
        in_bounds_spec(r, lim as int),
    {
    Vec2 { x: clamp64(a.x + b.x, lim), y: clamp64(a.y + b.y, lim) }
}

/// Componentwise difference clamped into `[-lim, lim]`.
pub open spec fn sub_clamped_spec(a: Vec2, b: Vec2, lim: int) -> Vec2 {
    Vec2 { x: clamp_spec(a.x - b.x, lim) as i64, y: clamp_spec(a.y - b.y, lim) as i64 }
}

/// Componentwise difference, saturating at `lim`.
pub fn sub_clamped(a: Vec2, b: Vec2, lim: i64) -> (r: Vec2)
    requires
        0 <= lim,
        -0x4000_0000_0000_0000 <= a.x - b.x <= 0x4000_0000_0000_0000,
        -0x4000_0000_0000_0000 <= a.y - b.y <= 0x4000_0000_0000_0000,
    ensures
        r == sub_clamped_spec(a, b, lim as int),
        in_bounds_spec(r, lim as int),
{
    Vec2 { x: clamp64(a.x - b.x, lim), y: clamp64(a.y - b.y, lim) }
}

} // verus!
