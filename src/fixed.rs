//! Fixed-point 3-D vectors: one length unit is `UNIT` steps, and a unit
//! direction has components in `[-UNIT, UNIT]`.

use vstd::prelude::*;

verus! {

/// Steps per length unit.
pub const UNIT: i64 = 1000;

/// A vector with integer fixed-point components.
#[derive(Clone, Copy, Debug, PartialEq, Eq, Structural)]
pub struct Vec3 {
    pub x: i64,
    pub y: i64,
    pub z: i64,
}

pub open spec fn bounded(v: Vec3, b: int) -> bool {
    -b <= v.x <= b && -b <= v.y <= b && -b <= v.z <= b
}

pub open spec fn dot_spec(a: Vec3, b: Vec3) -> int {
    a.x * b.x + a.y * b.y + a.z * b.z
}

pub open spec fn is_zero(v: Vec3) -> bool {
    v.x == 0 && v.y == 0 && v.z == 0
}

pub proof fn lemma_mul_bound(a: int, b: int, ba: int, bb: int)
    requires
        -ba <= a <= ba,
        -bb <= b <= bb,
    ensures
        -(ba * bb) <= a * b <= ba * bb,
{
    assert(-(ba * bb) <= a * b <= ba * bb) by (nonlinear_arith)
        requires
            -ba <= a <= ba,
            -bb <= b <= bb,
    ;
}

pub proof fn lemma_div_bound(p: int, d: int, m: int)
    requires
        d > 0,
        -(d * m) <= p <= d * m,
    ensures
        -m <= p / d <= m,
{
    let q = p / d;
    let r = p % d;
    vstd::arithmetic::div_mod::lemma_fundamental_div_mod(p, d);
    assert(-m <= q <= m) by (nonlinear_arith)
        requires
            d > 0,
            -(d * m) <= p <= d * m,
            p == d * q + r,
            0 <= r < d,
    ;
}

pub proof fn lemma_dot_bound(a: Vec3, b: Vec3, ba: int, bb: int)
    requires
        bounded(a, ba),
        bounded(b, bb),
    ensures
        -3 * (ba * bb) <= dot_spec(a, b) <= 3 * (ba * bb),
{
    lemma_mul_bound(a.x as int, b.x as int, ba, bb);
    lemma_mul_bound(a.y as int, b.y as int, ba, bb);
    lemma_mul_bound(a.z as int, b.z as int, ba, bb);
}

/// Floor division by a positive divisor.
pub fn div_floor(a: i64, b: i64) -> (q: i64)
    requires
        b > 0,
    ensures
        q == a / b,
{
    if a >= 0 {
        a / b
    } else {
        let t = (-1 - a) / b;
        proof {
            let ap = -1 - a;
            let r = ap % (b as int);
            vstd::arithmetic::div_mod::lemma_fundamental_div_mod(ap as int, b as int);
            assert(t == ap / (b as int));
            assert(0 <= r < b);
            assert(a == b * (-1 - t) + (b - 1 - r)) by (nonlinear_arith)
                requires
                    ap == -1 - a,
                    ap == b * t + r,
            ;
            vstd::arithmetic::div_mod::lemma_fundamental_div_mod_converse(
                a as int,
                b as int,
                -1 - t,
                b - 1 - r,
            );
        }
        -1 - t
    }
}

/// Bound on the components of every vector the resolver works with.
pub const MAX_COMPONENT: i64 = 1073741824;

pub open spec fn plus_spec(a: Vec3, b: Vec3) -> Vec3 {
    Vec3 { x: (a.x + b.x) as i64, y: (a.y + b.y) as i64, z: (a.z + b.z) as i64 }
}

/// Each component multiplied by `num` and floor-divided by `den`.
pub open spec fn scale_spec(v: Vec3, num: int, den: int) -> Vec3 {
    Vec3 {
        x: ((v.x * num) / den) as i64,
        y: ((v.y * num) / den) as i64,
        z: ((v.z * num) / den) as i64,
    }
}

/// `v` with its component along the unit direction `n` removed.
pub open spec fn reject_spec(v: Vec3, n: Vec3) -> Vec3 {
    let d = dot_spec(v, n);
    Vec3 {
        x: (v.x - (n.x * d) / (UNIT * UNIT)) as i64,
        y: (v.y - (n.y * d) / (UNIT * UNIT)) as i64,
        z: (v.z - (n.z * d) / (UNIT * UNIT)) as i64,
    }
}

/// Cross product of two unit directions, itself in unit scale.
pub open spec fn cross_spec(a: Vec3, b: Vec3) -> Vec3 {
    Vec3 {
        x: ((a.y * b.z - a.z * b.y) / UNIT as int) as i64,
        y: ((a.z * b.x - a.x * b.z) / UNIT as int) as i64,
        z: ((a.x * b.y - a.y * b.x) / UNIT as int) as i64,
    }
}

/// The component of `v` along the line spanned by `c` (`c` in unit scale).
pub open spec fn project_spec(v: Vec3, c: Vec3) -> Vec3 {
    scale_spec(c, dot_spec(c, v), UNIT * UNIT)
}

/// `r` is the integer square root of `n`, rounded down.
pub open spec fn is_floor_sqrt(n: int, r: int) -> bool {
    0 <= r && r * r <= n < (r + 1) * (r + 1)
}

pub open spec fn norm_sq(v: Vec3) -> int {
    dot_spec(v, v)
}

pub fn dot(a: Vec3, b: Vec3) -> (r: i64)
    requires
        bounded(a, MAX_COMPONENT as int),
        bounded(b, MAX_COMPONENT as int),
    ensures
        r == dot_spec(a, b),
{
    proof {
        lemma_mul_bound(a.x as int, b.x as int, MAX_COMPONENT as int, MAX_COMPONENT as int);
        lemma_mul_bound(a.y as int, b.y as int, MAX_COMPONENT as int, MAX_COMPONENT as int);
        lemma_mul_bound(a.z as int, b.z as int, MAX_COMPONENT as int, MAX_COMPONENT as int);
    }
    a.x * b.x + a.y * b.y + a.z * b.z
}

pub fn plus(a: Vec3, b: Vec3) -> (r: Vec3)
    requires
        i64::MIN <= a.x + b.x <= i64::MAX,
        i64::MIN <= a.y + b.y <= i64::MAX,
        i64::MIN <= a.z + b.z <= i64::MAX,
    ensures
        r == plus_spec(a, b),
{
    Vec3 { x: a.x + b.x, y: a.y + b.y, z: a.z + b.z }
}

pub fn scale(v: Vec3, num: i64, den: i64) -> (r: Vec3)
    requires
        den > 0,
        i64::MIN <= v.x * num <= i64::MAX,
        i64::MIN <= v.y * num <= i64::MAX,
        i64::MIN <= v.z * num <= i64::MAX,
    ensures
        r == scale_spec(v, num as int, den as int),
{
    Vec3 {
        x: div_floor(v.x * num, den),
        y: div_floor(v.y * num, den),
        z: div_floor(v.z * num, den),
    }
}

/// Integer square root, rounded down.
pub fn isqrt(n: i64) -> (r: i64)
    requires
        0 <= n < 0x4000_0000_0000_0000,
    ensures
        is_floor_sqrt(n as int, r as int),
        r < 0x8000_0000,
{
    let mut lo: i64 = 0;
    let mut hi: i64 = 0x8000_0000;
    while hi - lo > 1
        invariant
            0 <= lo < hi <= 0x8000_0000,
            lo * lo <= n < hi * hi,
        decreases hi - lo,
    {
        let mid = lo + (hi - lo) / 2;
        assert(mid * mid <= 0x4000_0000_0000_0000) by (nonlinear_arith)
            requires
                0 <= mid <= 0x8000_0000,
        ;
        if mid * mid <= n {
            lo = mid;
        } else {
            hi = mid;
        }
    }
    lo
}

pub proof fn lemma_component_le_root(x: int, l: int)
    requires
        l >= 0,
        x * x < (l + 1) * (l + 1),
    ensures
        -l <= x <= l,
{
    if x > l {
        assert(x * x >= (l + 1) * (l + 1)) by (nonlinear_arith)
            requires
                x >= l + 1,
                l >= 0,
        ;
    }
    if x < -l {
        assert(x * x >= (l + 1) * (l + 1)) by (nonlinear_arith)
            requires
                -x >= l + 1,
                l >= 0,
        ;
    }
}

pub proof fn lemma_squares_nonneg(v: Vec3)
    ensures
        v.x * v.x >= 0,
        v.y * v.y >= 0,
        v.z * v.z >= 0,
        is_zero(v) <==> norm_sq(v) == 0,
{
    assert(v.x * v.x >= 0) by (nonlinear_arith);
    assert(v.y * v.y >= 0) by (nonlinear_arith);
    assert(v.z * v.z >= 0) by (nonlinear_arith);
    if v.x != 0 {
        assert(v.x * v.x > 0) by (nonlinear_arith)
            requires
                v.x != 0,
        ;
    }
    if v.y != 0 {
        assert(v.y * v.y > 0) by (nonlinear_arith)
            requires
                v.y != 0,
        ;
    }
    if v.z != 0 {
        assert(v.z * v.z > 0) by (nonlinear_arith)
            requires
                v.z != 0,
        ;
    }
}

/// Length of `v`, rounded down.
pub fn length(v: Vec3) -> (r: i64)
    requires
        bounded(v, MAX_COMPONENT as int),
    ensures
        is_floor_sqrt(norm_sq(v), r as int),
        r < 0x8000_0000,
        r == 0 <==> is_zero(v),
{
    proof {
        lemma_dot_bound(v, v, MAX_COMPONENT as int, MAX_COMPONENT as int);
        lemma_squares_nonneg(v);
    }
    let r = isqrt(dot(v, v));
    proof {
        if r == 0 {
            assert((r + 1) * (r + 1) == 1) by (nonlinear_arith)
                requires
                    r == 0,
            ;
            assert(norm_sq(v) == 0);
        }
        if is_zero(v) {
            assert(r == 0) by (nonlinear_arith)
                requires
                    r >= 0,
                    r * r <= 0,
            ;
        }
    }
    r
}

/// The unit direction of `v` and its length; `None` for the zero vector.
pub fn normalize(v: Vec3) -> (r: Option<(Vec3, i64)>)
    requires
        bounded(v, MAX_COMPONENT as int),
    ensures
        r is None <==> is_zero(v),
        r matches Some((d, len)) ==> is_floor_sqrt(norm_sq(v), len as int) && len > 0 && len
            < 0x8000_0000 && d == scale_spec(v, UNIT as int, len as int) && bounded(d, UNIT as int),
{
    let len = length(v);
    if len == 0 {
        return None;
    }
    proof {
        lemma_squares_nonneg(v);
        lemma_component_le_root(v.x as int, len as int);
        lemma_component_le_root(v.y as int, len as int);
        lemma_component_le_root(v.z as int, len as int);
        lemma_mul_bound(v.x as int, UNIT as int, len as int, UNIT as int);
        lemma_mul_bound(v.y as int, UNIT as int, len as int, UNIT as int);
        lemma_mul_bound(v.z as int, UNIT as int, len as int, UNIT as int);
        lemma_div_bound(v.x * UNIT, len as int, UNIT as int);
        lemma_div_bound(v.y * UNIT, len as int, UNIT as int);
        lemma_div_bound(v.z * UNIT, len as int, UNIT as int);
    }
    let d = scale(v, UNIT, len);
    Some((d, len))
}

/// Removes from `v` its component along the unit direction `n`.
pub fn reject_from_normalized(v: Vec3, n: Vec3) -> (r: Vec3)
    requires
        bounded(v, 0x100_0000),
        bounded(n, UNIT as int),
    ensures
        r == reject_spec(v, n),
        bounded(r, 0x400_0000),
{
    proof {
        lemma_dot_bound(v, n, 0x100_0000, UNIT as int);
    }
    let d = dot(v, n);
    proof {
        lemma_mul_bound(n.x as int, d as int, UNIT as int, 3 * 0x100_0000 * UNIT);
        lemma_mul_bound(n.y as int, d as int, UNIT as int, 3 * 0x100_0000 * UNIT);
        lemma_mul_bound(n.z as int, d as int, UNIT as int, 3 * 0x100_0000 * UNIT);
        lemma_div_bound(n.x * d, UNIT * UNIT, (3 * 0x100_0000) as int);
        lemma_div_bound(n.y * d, UNIT * UNIT, (3 * 0x100_0000) as int);
        lemma_div_bound(n.z * d, UNIT * UNIT, (3 * 0x100_0000) as int);
    }
    let p = scale(n, d, UNIT * UNIT);
    Vec3 { x: v.x - p.x, y: v.y - p.y, z: v.z - p.z }
}

/// Cross product of two unit directions.
pub fn cross(a: Vec3, b: Vec3) -> (r: Vec3)
    requires
        bounded(a, UNIT as int),
        bounded(b, UNIT as int),
    ensures
        r == cross_spec(a, b),
        bounded(r, 2 * UNIT),
{
    proof {
        lemma_mul_bound(a.y as int, b.z as int, UNIT as int, UNIT as int);
        lemma_mul_bound(a.z as int, b.y as int, UNIT as int, UNIT as int);
        lemma_mul_bound(a.z as int, b.x as int, UNIT as int, UNIT as int);
        lemma_mul_bound(a.x as int, b.z as int, UNIT as int, UNIT as int);
        lemma_mul_bound(a.x as int, b.y as int, UNIT as int, UNIT as int);
        lemma_mul_bound(a.y as int, b.x as int, UNIT as int, UNIT as int);
        lemma_div_bound(a.y * b.z - a.z * b.y, UNIT as int, 2 * UNIT);
        lemma_div_bound(a.z * b.x - a.x * b.z, UNIT as int, 2 * UNIT);
        lemma_div_bound(a.x * b.y - a.y * b.x, UNIT as int, 2 * UNIT);
    }
    Vec3 {
        x: div_floor(a.y * b.z - a.z * b.y, UNIT),
        y: div_floor(a.z * b.x - a.x * b.z, UNIT),
        z: div_floor(a.x * b.y - a.y * b.x, UNIT),
    }
}

/// The component of `v` along the line spanned by `c`.
pub fn project_onto_line(v: Vec3, c: Vec3) -> (r: Vec3)
    requires
        bounded(v, 0x400_0000),
        bounded(c, 2 * UNIT),
    ensures
        r == project_spec(v, c),
        bounded(r, MAX_COMPONENT as int),
{
    proof {
        lemma_dot_bound(c, v, 2 * UNIT, 0x400_0000);
    }
    let d = dot(c, v);
    proof {
        lemma_mul_bound(c.x as int, d as int, 2 * UNIT, 3 * (2 * UNIT * 0x400_0000));
        lemma_mul_bound(c.y as int, d as int, 2 * UNIT, 3 * (2 * UNIT * 0x400_0000));
        lemma_mul_bound(c.z as int, d as int, 2 * UNIT, 3 * (2 * UNIT * 0x400_0000));
        assert((2 * UNIT) * (3 * (2 * UNIT * 0x400_0000)) == (UNIT * UNIT) * (12 * 0x400_0000))
            by (nonlinear_arith)
            requires
                UNIT == 1000,
        ;
        lemma_div_bound(c.x * d, UNIT * UNIT, (12 * 0x400_0000) as int);
        lemma_div_bound(c.y * d, UNIT * UNIT, (12 * 0x400_0000) as int);
        lemma_div_bound(c.z * d, UNIT * UNIT, (12 * 0x400_0000) as int);
    }
    scale(c, d, UNIT * UNIT)
}

} // verus!
