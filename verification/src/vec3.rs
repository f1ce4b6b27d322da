//! Three-component vectors (displacements and directions) over fixed-point
//! scalars.

use vstd::prelude::*;
use crate::fx::{
    SCALE, fx_mul_s, fx_div_s, fx_sqrt_s, tdiv, isqrt_s, fx_mul, fx_div, fx_sqrt,
    lemma_abs_mul, lemma_tdiv_bound, lemma_tdiv_range, lemma_isqrt_bounds,
};

verus! {

/// Largest component magnitude the vector operations accept; it keeps every
/// intermediate `i128` product and sum representable.
pub const FX_LIMIT: i64 = 0x4000_0000_0000_0000;

/// Largest component magnitude `Vec3::normalize` can return.
pub const NORM_LIMIT: i64 = 16842752;

/// A displacement or direction in space; each component is a 16.16
/// fixed-point scalar.
#[derive(Clone, Copy, Debug, PartialEq, Eq, Structural)]
pub struct Vec3 {
    pub x: i64,
    pub y: i64,
    pub z: i64,
}

/// All three components lie in `[-m, m]`.
pub open spec fn v_in(v: Vec3, m: int) -> bool {
    -m <= v.x <= m && -m <= v.y <= m && -m <= v.z <= m
}

/// The exact (unscaled) inner product of the raw components.
pub open spec fn dot_i(a: Vec3, b: Vec3) -> int {
    a.x * b.x + a.y * b.y + a.z * b.z
}

/// The fixed-point inner product.
pub open spec fn dot_s(a: Vec3, b: Vec3) -> int {
    tdiv(dot_i(a, b), SCALE as int)
}

/// Exact (unscaled) components of the cross product.
pub open spec fn cross_x_i(a: Vec3, b: Vec3) -> int {
    a.y * b.z - a.z * b.y
}

pub open spec fn cross_y_i(a: Vec3, b: Vec3) -> int {
    a.z * b.x - a.x * b.z
}

pub open spec fn cross_z_i(a: Vec3, b: Vec3) -> int {
    a.x * b.y - a.y * b.x
}

/// Fixed-point components of the cross product.
pub open spec fn cross_x_s(a: Vec3, b: Vec3) -> int {
    tdiv(cross_x_i(a, b), SCALE as int)
}

pub open spec fn cross_y_s(a: Vec3, b: Vec3) -> int {
    tdiv(cross_y_i(a, b), SCALE as int)
}

pub open spec fn cross_z_s(a: Vec3, b: Vec3) -> int {
    tdiv(cross_z_i(a, b), SCALE as int)
}

/// The cross product as a vector, for in-range component values.
pub open spec fn cross_s(a: Vec3, b: Vec3) -> Vec3 {
    Vec3 { x: cross_x_s(a, b) as i64, y: cross_y_s(a, b) as i64, z: cross_z_s(a, b) as i64 }
}

/// The fixed-point squared length.
pub open spec fn len_sq_s(v: Vec3) -> int {
    dot_s(v, v)
}

/// The fixed-point length.
pub open spec fn len_s(v: Vec3) -> int {
    fx_sqrt_s(len_sq_s(v))
}

/// The normalized vector, for in-range component values.
pub open spec fn norm_s(v: Vec3) -> Vec3 {
    Vec3 {
        x: fx_div_s(v.x as int, len_s(v)) as i64,
        y: fx_div_s(v.y as int, len_s(v)) as i64,
        z: fx_div_s(v.z as int, len_s(v)) as i64,
    }
}

/// Component selection by index.
pub open spec fn index_s(v: Vec3, i: int) -> int {
    if i == 0 {
        v.x as int
    } else if i == 1 {
        v.y as int
    } else {
        v.z as int
    }
}

/// The inner product of a vector with itself is nonnegative.
pub proof fn lemma_dot_self_nonneg(v: Vec3)
    ensures
        dot_i(v, v) >= 0,
        dot_s(v, v) >= 0,
        v.x * v.x <= dot_i(v, v),
        v.y * v.y <= dot_i(v, v),
        v.z * v.z <= dot_i(v, v),
{
    assert(v.x * v.x >= 0 && v.y * v.y >= 0 && v.z * v.z >= 0) by (nonlinear_arith);
    lemma_tdiv_range(dot_i(v, v), SCALE as int);
}

/// The inner product of vectors with components bounded by `ma` and `mb` is
/// bounded by `3 * ma * mb` before scaling.
pub proof fn lemma_dot_bound(a: Vec3, b: Vec3, ma: int, mb: int)
    requires
        v_in(a, ma),
        v_in(b, mb),
        0 <= ma,
        0 <= mb,
    ensures
        -(3 * ma * mb) <= dot_i(a, b) <= 3 * ma * mb,
        -(tdiv(3 * ma * mb, SCALE as int)) <= dot_s(a, b) <= tdiv(3 * ma * mb, SCALE as int),
{
    lemma_abs_mul(a.x as int, b.x as int, ma, mb);
    lemma_abs_mul(a.y as int, b.y as int, ma, mb);
    lemma_abs_mul(a.z as int, b.z as int, ma, mb);
    assert(3 * ma * mb == ma * mb + ma * mb + ma * mb) by (nonlinear_arith);
    assert(3 * ma * mb >= 0) by (nonlinear_arith)
        requires
            0 <= ma,
            0 <= mb,
    ;
    lemma_tdiv_bound(dot_i(a, b), 3 * ma * mb, SCALE as int);
}

/// The cross product of vectors with components bounded by `ma` and `mb` has
/// components bounded by `2 * ma * mb` before scaling.
pub proof fn lemma_cross_bound(a: Vec3, b: Vec3, ma: int, mb: int)
    requires
        v_in(a, ma),
        v_in(b, mb),
        0 <= ma,
        0 <= mb,
    ensures
        -(2 * ma * mb) <= cross_x_i(a, b) <= 2 * ma * mb,
        -(2 * ma * mb) <= cross_y_i(a, b) <= 2 * ma * mb,
        -(2 * ma * mb) <= cross_z_i(a, b) <= 2 * ma * mb,
        -(tdiv(2 * ma * mb, SCALE as int)) <= cross_x_s(a, b) <= tdiv(2 * ma * mb, SCALE as int),
        -(tdiv(2 * ma * mb, SCALE as int)) <= cross_y_s(a, b) <= tdiv(2 * ma * mb, SCALE as int),
        -(tdiv(2 * ma * mb, SCALE as int)) <= cross_z_s(a, b) <= tdiv(2 * ma * mb, SCALE as int),
{
    lemma_abs_mul(a.x as int, b.x as int, ma, mb);
    lemma_abs_mul(a.y as int, b.y as int, ma, mb);
    lemma_abs_mul(a.z as int, b.z as int, ma, mb);
    lemma_abs_mul(a.x as int, b.y as int, ma, mb);
    lemma_abs_mul(a.y as int, b.z as int, ma, mb);
    lemma_abs_mul(a.z as int, b.x as int, ma, mb);
    lemma_abs_mul(a.x as int, b.z as int, ma, mb);
    lemma_abs_mul(a.y as int, b.x as int, ma, mb);
    lemma_abs_mul(a.z as int, b.y as int, ma, mb);
    assert(2 * ma * mb == ma * mb + ma * mb) by (nonlinear_arith);
    assert(2 * ma * mb >= 0) by (nonlinear_arith)
        requires
            0 <= ma,
            0 <= mb,
    ;
    lemma_tdiv_bound(cross_x_i(a, b), 2 * ma * mb, SCALE as int);
    lemma_tdiv_bound(cross_y_i(a, b), 2 * ma * mb, SCALE as int);
    lemma_tdiv_bound(cross_z_i(a, b), 2 * ma * mb, SCALE as int);
}

impl Vec3 {
    pub fn new(x: i64, y: i64, z: i64) -> (r: Self)
        ensures
            r == (Vec3 { x, y, z }),
    {
        Vec3 { x, y, z }
    }

    pub fn zeroes() -> (r: Self)
        ensures
            r == (Vec3 { x: 0i64, y: 0i64, z: 0i64 }),
    {
        Vec3 { x: 0, y: 0, z: 0 }
    }

    /// The fixed-point representation has no NaN, so this is always false;
    /// `dot` and `cross` therefore need no operand guard.
    pub fn has_nans(&self) -> (r: bool)
        ensures
            !r,
    {
        false
    }

    /// Fixed-point inner product.
    pub fn dot(v1: Self, v2: Self) -> (r: i64)
        requires
            v_in(v1, FX_LIMIT as int),
            v_in(v2, FX_LIMIT as int),
            i64::MIN <= dot_s(v1, v2) <= i64::MAX,
        ensures
            r == dot_s(v1, v2),
    {
        proof {
            lemma_dot_bound(v1, v2, FX_LIMIT as int, FX_LIMIT as int);
            lemma_abs_mul(v1.x as int, v2.x as int, FX_LIMIT as int, FX_LIMIT as int);
            lemma_abs_mul(v1.y as int, v2.y as int, FX_LIMIT as int, FX_LIMIT as int);
            lemma_abs_mul(v1.z as int, v2.z as int, FX_LIMIT as int, FX_LIMIT as int);
        }
        let p: i128 = (v1.x as i128) * (v2.x as i128) + (v1.y as i128) * (v2.y as i128)
            + (v1.z as i128) * (v2.z as i128);
        let q: i128 = p / (SCALE as i128);
        q as i64
    }

    /// Fixed-point inner product into a wide scalar, for intermediate
    /// values that may exceed the component range.
    pub fn dot_wide(v1: Self, v2: Self) -> (r: i128)
        requires
            v_in(v1, FX_LIMIT as int),
            v_in(v2, FX_LIMIT as int),
        ensures
            r == dot_s(v1, v2),
    {
        proof {
            lemma_abs_mul(v1.x as int, v2.x as int, FX_LIMIT as int, FX_LIMIT as int);
            lemma_abs_mul(v1.y as int, v2.y as int, FX_LIMIT as int, FX_LIMIT as int);
            lemma_abs_mul(v1.z as int, v2.z as int, FX_LIMIT as int, FX_LIMIT as int);
            lemma_dot_bound(v1, v2, FX_LIMIT as int, FX_LIMIT as int);
        }
        let p: i128 = (v1.x as i128) * (v2.x as i128) + (v1.y as i128) * (v2.y as i128)
            + (v1.z as i128) * (v2.z as i128);
        p / (SCALE as i128)
    }

    /// Fixed-point right-handed cross product.
    pub fn cross(v1: Self, v2: Self) -> (r: Self)
        requires
            v_in(v1, FX_LIMIT as int),
            v_in(v2, FX_LIMIT as int),
            i64::MIN <= cross_x_s(v1, v2) <= i64::MAX,
            i64::MIN <= cross_y_s(v1, v2) <= i64::MAX,
            i64::MIN <= cross_z_s(v1, v2) <= i64::MAX,
        ensures
            r == cross_s(v1, v2),
            r.x == cross_x_s(v1, v2),
            r.y == cross_y_s(v1, v2),
            r.z == cross_z_s(v1, v2),
    {
        proof {
            lemma_abs_mul(v1.y as int, v2.z as int, FX_LIMIT as int, FX_LIMIT as int);
            lemma_abs_mul(v1.z as int, v2.y as int, FX_LIMIT as int, FX_LIMIT as int);
            lemma_abs_mul(v1.z as int, v2.x as int, FX_LIMIT as int, FX_LIMIT as int);
            lemma_abs_mul(v1.x as int, v2.z as int, FX_LIMIT as int, FX_LIMIT as int);
            lemma_abs_mul(v1.x as int, v2.y as int, FX_LIMIT as int, FX_LIMIT as int);
            lemma_abs_mul(v1.y as int, v2.x as int, FX_LIMIT as int, FX_LIMIT as int);
        }
        let cx: i128 = (v1.y as i128) * (v2.z as i128) - (v1.z as i128) * (v2.y as i128);
        let cy: i128 = (v1.z as i128) * (v2.x as i128) - (v1.x as i128) * (v2.z as i128);
        let cz: i128 = (v1.x as i128) * (v2.y as i128) - (v1.y as i128) * (v2.x as i128);
        Vec3 {
            x: (cx / (SCALE as i128)) as i64,
            y: (cy / (SCALE as i128)) as i64,
            z: (cz / (SCALE as i128)) as i64,
        }
    }

    /// Fixed-point squared length.
    pub fn len_sq(&self) -> (r: i64)
        requires
            v_in(*self, FX_LIMIT as int),
            dot_s(*self, *self) <= i64::MAX,
        ensures
            r == len_sq_s(*self),
            r >= 0,
    {
        proof {
            lemma_dot_self_nonneg(*self);
        }
        Self::dot(*self, *self)
    }

    /// Fixed-point length.
    pub fn len(&self) -> (r: i64)
        requires
            v_in(*self, FX_LIMIT as int),
            dot_s(*self, *self) <= i64::MAX,
        ensures
            r == len_s(*self),
            r >= 0,
    {
        proof {
            lemma_dot_self_nonneg(*self);
        }
        let ls = self.len_sq();
        fx_sqrt(ls)
    }

    /// Scale the vector to unit length. The caller must guarantee a nonzero
    /// fixed-point length.
    pub fn normalize(v: Self) -> (r: Self)
        requires
            v_in(v, FX_LIMIT as int),
            dot_s(v, v) <= i64::MAX,
            len_s(v) != 0,
        ensures
            r == norm_s(v),
            v_in(r, NORM_LIMIT as int),
    {
        proof {
            lemma_norm_in_limit(v);
        }
        let l = v.len();
        Vec3 { x: fx_div(v.x, l), y: fx_div(v.y, l), z: fx_div(v.z, l) }
    }
}

/// Each component of a vector is at most 256 above its fixed-point length.
proof fn lemma_component_le_len(v: Vec3)
    requires
        dot_s(v, v) <= i64::MAX,
        len_s(v) >= 1,
    ensures
        -(len_s(v) + 256) <= v.x <= len_s(v) + 256,
        -(len_s(v) + 256) <= v.y <= len_s(v) + 256,
        -(len_s(v) + 256) <= v.z <= len_s(v) + 256,
{
    let d = dot_i(v, v);
    let s = SCALE as int;
    let ls = len_sq_s(v);
    let l = len_s(v);
    lemma_dot_self_nonneg(v);
    assert(ls == d / s);
    lemma_tdiv_range(d, s);
    assert(ls * s <= d < ls * s + s);
    lemma_isqrt_bounds((ls * s) as nat);
    assert(l == isqrt_s((ls * s) as nat) as int);
    assert(l * l <= ls * s < (l + 1) * (l + 1));
    assert(d < (l + 1) * (l + 1) + s);
    lemma_component_bound_from_sq(v.x as int, d, l);
    lemma_component_bound_from_sq(v.y as int, d, l);
    lemma_component_bound_from_sq(v.z as int, d, l);
}

/// If `c * c` is below `(l + 1)^2 + SCALE`, then `|c|` is at most `l + 256`.
proof fn lemma_component_bound_from_sq(c: int, d: int, l: int)
    requires
        c * c <= d,
        d < (l + 1) * (l + 1) + SCALE,
        l >= 0,
    ensures
        -(l + 256) <= c <= l + 256,
{
    assert(-(l + 256) <= c <= l + 256) by (nonlinear_arith)
        requires
            c * c <= d,
            d < (l + 1) * (l + 1) + SCALE,
            l >= 0,
            SCALE == 65536,
    ;
}

/// The components of a normalized vector are bounded by `NORM_LIMIT`.
proof fn lemma_norm_in_limit(v: Vec3)
    requires
        dot_s(v, v) <= i64::MAX,
        len_s(v) != 0,
    ensures
        -(NORM_LIMIT as int) <= fx_div_s(v.x as int, len_s(v)) <= NORM_LIMIT as int,
        -(NORM_LIMIT as int) <= fx_div_s(v.y as int, len_s(v)) <= NORM_LIMIT as int,
        -(NORM_LIMIT as int) <= fx_div_s(v.z as int, len_s(v)) <= NORM_LIMIT as int,
        len_s(v) >= 1,
{
    let l = len_s(v);
    let s = SCALE as int;
    lemma_dot_self_nonneg(v);
    assert(l >= 0);
    lemma_component_le_len(v);
    lemma_norm_component(v.x as int, l);
    lemma_norm_component(v.y as int, l);
    lemma_norm_component(v.z as int, l);
}

/// Dividing a component bounded by `l + 256` by the length `l` gives a
/// quotient bounded by `257 * SCALE`.
proof fn lemma_norm_component(c: int, l: int)
    requires
        l >= 1,
        -(l + 256) <= c <= l + 256,
    ensures
        -(NORM_LIMIT as int) <= fx_div_s(c, l) <= NORM_LIMIT as int,
{
    let s = SCALE as int;
    let m = (l + 256) * s;
    assert(c * s <= m && -m <= c * s && m >= 0) by (nonlinear_arith)
        requires
            -(l + 256) <= c <= l + 256,
            s > 0,
            l >= 1,
            m == (l + 256) * s,
    ;
    lemma_tdiv_bound(c * s, m, l);
    assert(m <= (257 * s) * l) by (nonlinear_arith)
        requires
            l >= 1,
            s == 65536,
            m == (l + 256) * s,
    ;
    vstd::arithmetic::div_mod::lemma_div_is_ordered(m, (257 * s) * l, l);
    assert(((257 * s) * l) / l == 257 * s) by (nonlinear_arith)
        requires
            l >= 1,
    ;
    assert(m / l <= 257 * s);
}

/// The cross product of a vector with itself is the zero vector, exactly.
pub proof fn lemma_cross_self(v: Vec3)
    ensures
        cross_s(v, v) == (Vec3 { x: 0i64, y: 0i64, z: 0i64 }),
        cross_x_s(v, v) == 0,
        cross_y_s(v, v) == 0,
        cross_z_s(v, v) == 0,
{
    let x = v.x as int;
    let y = v.y as int;
    let z = v.z as int;
    assert(y * z - z * y == 0 && z * x - x * z == 0 && x * y - y * x == 0) by (nonlinear_arith);
    assert(cross_x_i(v, v) == 0);
    assert(cross_y_i(v, v) == 0);
    assert(cross_z_i(v, v) == 0);
    vstd::arithmetic::div_mod::lemma_div_of0(SCALE as int);
    assert(tdiv(0, SCALE as int) == 0);
}

/// The cross product is anti-commutative, exactly: swapping the operands
/// negates every component, before and after scaling.
pub proof fn lemma_cross_antisym(a: Vec3, b: Vec3)
    ensures
        cross_x_i(a, b) == -cross_x_i(b, a),
        cross_y_i(a, b) == -cross_y_i(b, a),
        cross_z_i(a, b) == -cross_z_i(b, a),
        cross_x_s(a, b) == -cross_x_s(b, a),
        cross_y_s(a, b) == -cross_y_s(b, a),
        cross_z_s(a, b) == -cross_z_s(b, a),
{
    let ax = a.x as int;
    let ay = a.y as int;
    let az = a.z as int;
    let bx = b.x as int;
    let by = b.y as int;
    let bz = b.z as int;
    assert(ay * bz - az * by == -(by * az - bz * ay)) by (nonlinear_arith);
    assert(az * bx - ax * bz == -(bz * ax - bx * az)) by (nonlinear_arith);
    assert(ax * by - ay * bx == -(bx * ay - by * ax)) by (nonlinear_arith);
    lemma_tdiv_neg(cross_x_i(b, a), SCALE as int);
    lemma_tdiv_neg(cross_y_i(b, a), SCALE as int);
    lemma_tdiv_neg(cross_z_i(b, a), SCALE as int);
}

/// Truncating division commutes with negation of the numerator.
pub proof fn lemma_tdiv_neg(a: int, b: int)
    requires
        b > 0,
    ensures
        tdiv(-a, b) == -tdiv(a, b),
{
    vstd::arithmetic::div_mod::lemma_div_of0(b);
    if a > 0 {
        assert(tdiv(-a, b) == -((-(-a)) / b));
    }
}

/// The inner product is symmetric.
pub proof fn lemma_dot_sym(a: Vec3, b: Vec3)
    ensures
        dot_i(a, b) == dot_i(b, a),
        dot_s(a, b) == dot_s(b, a),
{
    assert(dot_i(a, b) == dot_i(b, a)) by (nonlinear_arith);
}

/// The componentwise sum, for in-range values.
pub open spec fn add_s(a: Vec3, b: Vec3) -> Vec3 {
    Vec3 { x: (a.x + b.x) as i64, y: (a.y + b.y) as i64, z: (a.z + b.z) as i64 }
}

/// The componentwise negation, for in-range values.
pub open spec fn neg_s(v: Vec3) -> Vec3 {
    Vec3 { x: (-v.x) as i64, y: (-v.y) as i64, z: (-v.z) as i64 }
}

/// The scalar product, componentwise, for in-range values.
pub open spec fn scale_v_s(v: Vec3, s: int) -> Vec3 {
    Vec3 {
        x: fx_mul_s(v.x as int, s) as i64,
        y: fx_mul_s(v.y as int, s) as i64,
        z: fx_mul_s(v.z as int, s) as i64,
    }
}

/// The inner product is additive in its first argument, exactly, before
/// scaling; by symmetry the same holds in the second. After scaling the
/// rounded results differ by at most one unit in the last place.
pub proof fn lemma_dot_additive(a: Vec3, b: Vec3, c: Vec3)
    requires
        i64::MIN <= a.x + b.x <= i64::MAX,
        i64::MIN <= a.y + b.y <= i64::MAX,
        i64::MIN <= a.z + b.z <= i64::MAX,
    ensures
        dot_i(add_s(a, b), c) == dot_i(a, c) + dot_i(b, c),
        dot_s(a, c) + dot_s(b, c) - 1 <= dot_s(add_s(a, b), c) <= dot_s(a, c) + dot_s(b, c) + 1,
{
    assert(dot_i(add_s(a, b), c) == dot_i(a, c) + dot_i(b, c)) by (nonlinear_arith)
        requires
            add_s(a, b).x == a.x + b.x,
            add_s(a, b).y == a.y + b.y,
            add_s(a, b).z == a.z + b.z,
    ;
    lemma_tdiv_split(dot_i(a, c), dot_i(b, c), SCALE as int);
}

/// The cross product is additive in its first argument, exactly, before
/// scaling.
pub proof fn lemma_cross_additive(a: Vec3, b: Vec3, c: Vec3)
    requires
        i64::MIN <= a.x + b.x <= i64::MAX,
        i64::MIN <= a.y + b.y <= i64::MAX,
        i64::MIN <= a.z + b.z <= i64::MAX,
    ensures
        cross_x_i(add_s(a, b), c) == cross_x_i(a, c) + cross_x_i(b, c),
        cross_y_i(add_s(a, b), c) == cross_y_i(a, c) + cross_y_i(b, c),
        cross_z_i(add_s(a, b), c) == cross_z_i(a, c) + cross_z_i(b, c),
{
    assert(cross_x_i(add_s(a, b), c) == cross_x_i(a, c) + cross_x_i(b, c)
        && cross_y_i(add_s(a, b), c) == cross_y_i(a, c) + cross_y_i(b, c)
        && cross_z_i(add_s(a, b), c) == cross_z_i(a, c) + cross_z_i(b, c)) by (nonlinear_arith)
        requires
            add_s(a, b).x == a.x + b.x,
            add_s(a, b).y == a.y + b.y,
            add_s(a, b).z == a.z + b.z,
    ;
}

/// The inner and cross products commute with integer scaling of one operand,
/// exactly, before fixed-point rescaling.
pub proof fn lemma_dot_cross_homogeneous(a: Vec3, b: Vec3, k: int)
    requires
        i64::MIN <= k * a.x <= i64::MAX,
        i64::MIN <= k * a.y <= i64::MAX,
        i64::MIN <= k * a.z <= i64::MAX,
    ensures
        dot_i(Vec3 { x: (k * a.x) as i64, y: (k * a.y) as i64, z: (k * a.z) as i64 }, b)
            == k * dot_i(a, b),
        cross_x_i(Vec3 { x: (k * a.x) as i64, y: (k * a.y) as i64, z: (k * a.z) as i64 }, b)
            == k * cross_x_i(a, b),
        cross_y_i(Vec3 { x: (k * a.x) as i64, y: (k * a.y) as i64, z: (k * a.z) as i64 }, b)
            == k * cross_y_i(a, b),
        cross_z_i(Vec3 { x: (k * a.x) as i64, y: (k * a.y) as i64, z: (k * a.z) as i64 }, b)
            == k * cross_z_i(a, b),
{
    let ka = Vec3 { x: (k * a.x) as i64, y: (k * a.y) as i64, z: (k * a.z) as i64 };
    let ax = a.x as int;
    let ay = a.y as int;
    let az = a.z as int;
    let bx = b.x as int;
    let by = b.y as int;
    let bz = b.z as int;
    assert((k * ax) * bx == k * (ax * bx)) by (nonlinear_arith);
    assert((k * ay) * by == k * (ay * by)) by (nonlinear_arith);
    assert((k * az) * bz == k * (az * bz)) by (nonlinear_arith);
    assert((k * ay) * bz == k * (ay * bz)) by (nonlinear_arith);
    assert((k * az) * by == k * (az * by)) by (nonlinear_arith);
    assert((k * az) * bx == k * (az * bx)) by (nonlinear_arith);
    assert((k * ax) * bz == k * (ax * bz)) by (nonlinear_arith);
    assert((k * ax) * by == k * (ax * by)) by (nonlinear_arith);
    assert((k * ay) * bx == k * (ay * bx)) by (nonlinear_arith);
    vstd::arithmetic::mul::lemma_mul_is_distributive_add(k, ax * bx + ay * by, az * bz);
    vstd::arithmetic::mul::lemma_mul_is_distributive_add(k, ax * bx, ay * by);
    vstd::arithmetic::mul::lemma_mul_is_distributive_sub(k, ay * bz, az * by);
    vstd::arithmetic::mul::lemma_mul_is_distributive_sub(k, az * bx, ax * bz);
    vstd::arithmetic::mul::lemma_mul_is_distributive_sub(k, ax * by, ay * bx);
    assert(ka.x == k * ax && ka.y == k * ay && ka.z == k * az);
}

/// Splitting a truncating division over a sum changes the result by at most
/// one.
pub proof fn lemma_tdiv_split(a: int, b: int, d: int)
    requires
        d > 0,
    ensures
        tdiv(a, d) + tdiv(b, d) - 1 <= tdiv(a + b, d) <= tdiv(a, d) + tdiv(b, d) + 1,
{
    let qa = tdiv(a, d);
    let qb = tdiv(b, d);
    let q = tdiv(a + b, d);
    lemma_tdiv_range(a, d);
    lemma_tdiv_range(b, d);
    lemma_tdiv_range(a + b, d);
    assert(a - d < qa * d < a + d);
    assert(b - d < qb * d < b + d);
    assert((a + b) - d < q * d < (a + b) + d);
    assert((qa + qb) * d == qa * d + qb * d) by (nonlinear_arith);
    assert((q - (qa + qb)) * d == q * d - (qa + qb) * d) by (nonlinear_arith);
    let diff = q - (qa + qb);
    assert(diff * d < 3 * d && -(3 * d) < diff * d);
    if diff >= 2 {
        assert(diff * d >= 2 * d) by (nonlinear_arith)
            requires
                diff >= 2,
                d > 0,
        ;
        assert(q * d <= a + b && qa * d > a - d && qb * d > b - d);
        assert(diff * d < 2 * d);
        assert(false);
    }
    if diff <= -2 {
        assert(diff * d <= -2 * d) by (nonlinear_arith)
            requires
                diff <= -2,
                d > 0,
        ;
        assert(-(2 * d) < diff * d);
        assert(false);
    }
}

/// The rescaled truncated quotient `tdiv(c * SCALE, l)`, squared and
/// multiplied back by `l * l`, brackets `(c * SCALE)^2` from below within
/// `2 * |c * SCALE| * l`.
proof fn lemma_trunc_quotient_sq(c: int, l: int)
    requires
        l >= 1,
    ensures
        ({
            let s = SCALE as int;
            let q = tdiv(c * s, l);
            (q * l) * (q * l) <= (c * s) * (c * s)
                && (q * l) * (q * l) >= (c * s) * (c * s) - 2 * (crate::fx::iabs(c * s) * l)
        }),
{
    let s = SCALE as int;
    let cs = c * s;
    let q = tdiv(cs, l);
    let e = cs - q * l;
    lemma_tdiv_range(cs, l);
    assert((q * l) * (q * l) == cs * cs - 2 * (cs * e) + e * e) by (nonlinear_arith)
        requires
            e == cs - q * l,
    ;
    if cs >= 0 {
        assert(0 <= e < l);
        assert(q >= 0);
        assert(q * l >= 0) by (nonlinear_arith)
            requires
                q >= 0,
                l >= 1,
        ;
        assert(0 <= q * l <= cs);
        assert((q * l) * (q * l) <= cs * cs) by (nonlinear_arith)
            requires
                0 <= q * l <= cs,
        ;
        assert(cs * e <= cs * l) by (nonlinear_arith)
            requires
                0 <= e < l,
                cs >= 0,
        ;
        assert(crate::fx::iabs(cs) * l == cs * l);
    } else {
        assert(-l < e <= 0);
        assert(q <= 0);
        assert(q * l <= 0) by (nonlinear_arith)
            requires
                q <= 0,
                l >= 1,
        ;
        assert(cs <= q * l <= 0);
        assert((q * l) * (q * l) <= cs * cs) by (nonlinear_arith)
            requires
                cs <= q * l <= 0,
        ;
        assert(cs * e <= (-cs) * l) by (nonlinear_arith)
            requires
                -l < e <= 0,
                cs < 0,
        ;
        assert(crate::fx::iabs(cs) * l == (-cs) * l);
    }
    assert(e * e >= 0) by (nonlinear_arith);
}

/// The squared length of a normalized vector is close to the scalar one:
/// never more than `1542` units below it, and, when the vector is at least
/// one unit long, within `[-7, +3]` units of it.
pub proof fn lemma_norm_len_sq(v: Vec3)
    requires
        dot_s(v, v) <= i64::MAX,
        len_s(v) >= 1,
    ensures
        SCALE - 1542 <= len_sq_s(norm_s(v)),
        len_s(v) >= SCALE ==> SCALE - 7 <= len_sq_s(norm_s(v)) <= SCALE + 3,
{
    let s = SCALE as int;
    let d = dot_i(v, v);
    let ls = len_sq_s(v);
    let l = len_s(v);
    lemma_dot_self_nonneg(v);
    lemma_tdiv_range(d, s);
    assert(ls * s <= d < ls * s + s);
    lemma_isqrt_bounds((ls * s) as nat);
    assert(l * l <= ls * s < (l + 1) * (l + 1));
    assert(d < (l + 1) * (l + 1) + s);
    lemma_component_le_len(v);
    lemma_norm_in_limit(v);
    let cx = v.x as int;
    let cy = v.y as int;
    let cz = v.z as int;
    let qx = tdiv(cx * s, l);
    let qy = tdiv(cy * s, l);
    let qz = tdiv(cz * s, l);
    let n = norm_s(v);
    assert(n.x == qx && n.y == qy && n.z == qz);
    lemma_trunc_quotient_sq(cx, l);
    lemma_trunc_quotient_sq(cy, l);
    lemma_trunc_quotient_sq(cz, l);
    let sq = qx * qx + qy * qy + qz * qz;
    assert(dot_i(n, n) == sq);
    // Expand the bracketing facts into a bound on the summed squares.
    assert((qx * l) * (qx * l) == (qx * qx) * (l * l)) by (nonlinear_arith);
    assert((qy * l) * (qy * l) == (qy * qy) * (l * l)) by (nonlinear_arith);
    assert((qz * l) * (qz * l) == (qz * qz) * (l * l)) by (nonlinear_arith);
    assert((cx * s) * (cx * s) == (cx * cx) * (s * s)) by (nonlinear_arith);
    assert((cy * s) * (cy * s) == (cy * cy) * (s * s)) by (nonlinear_arith);
    assert((cz * s) * (cz * s) == (cz * cz) * (s * s)) by (nonlinear_arith);
    assert(crate::fx::iabs(cx * s) == crate::fx::iabs(cx) * s) by (nonlinear_arith)
        requires
            s > 0,
    ;
    assert(crate::fx::iabs(cy * s) == crate::fx::iabs(cy) * s) by (nonlinear_arith)
        requires
            s > 0,
    ;
    assert(crate::fx::iabs(cz * s) == crate::fx::iabs(cz) * s) by (nonlinear_arith)
        requires
            s > 0,
    ;
    let asum = crate::fx::iabs(cx) + crate::fx::iabs(cy) + crate::fx::iabs(cz);
    assert(crate::fx::iabs(cx) <= l + 256 && crate::fx::iabs(cy) <= l + 256
        && crate::fx::iabs(cz) <= l + 256);
    assert(asum <= 3 * l + 768);
    // Lower bound: sq * l^2 >= s^2 * d - 2 * s * l * asum.
    assert(sq * (l * l) == (qx * qx) * (l * l) + (qy * qy) * (l * l) + (qz * qz) * (l * l))
        by (nonlinear_arith)
        requires
            sq == qx * qx + qy * qy + qz * qz,
    ;
    assert(d * (s * s) == (cx * cx) * (s * s) + (cy * cy) * (s * s) + (cz * cz) * (s * s))
        by (nonlinear_arith)
        requires
            d == cx * cx + cy * cy + cz * cz,
    ;
    assert((crate::fx::iabs(cx) * s) * l + (crate::fx::iabs(cy) * s) * l
        + (crate::fx::iabs(cz) * s) * l == asum * (s * l)) by (nonlinear_arith)
        requires
            asum == crate::fx::iabs(cx) + crate::fx::iabs(cy) + crate::fx::iabs(cz),
    ;
    assert(sq * (l * l) >= d * (s * s) - 2 * (asum * (s * l)));
    // Upper bound on the summed squares: sq * l^2 <= s^2 * d.
    assert(sq * (l * l) <= d * (s * s));
    // From d >= l * l and asum <= 3l + 768, conclude the global lower bound.
    assert(d * (s * s) >= (l * l) * (s * s)) by (nonlinear_arith)
        requires
            d >= l * l,
            s > 0,
    ;
    assert(2 * (asum * (s * l)) <= (6 * s) * (l * l) + (1536 * s) * l) by (nonlinear_arith)
        requires
            asum <= 3 * l + 768,
            asum >= 0,
            s > 0,
            l >= 1,
    ;
    assert((1536 * s) * l <= (1536 * s) * (l * l)) by (nonlinear_arith)
        requires
            l >= 1,
            s > 0,
    ;
    assert(sq * (l * l) >= (l * l) * (s * s) - (6 * s) * (l * l) - (1536 * s) * (l * l));
    assert(sq >= s * s - 6 * s - 1536 * s) by (nonlinear_arith)
        requires
            sq * (l * l) >= (l * l) * (s * s) - (6 * s) * (l * l) - (1536 * s) * (l * l),
            l >= 1,
    ;
    // Divide by the scale to bound the reported squared length.
    lemma_tdiv_range(sq, s);
    assert(len_sq_s(n) == tdiv(sq, s));
    assert(tdiv(sq, s) * s > sq - s);
    assert(tdiv(sq, s) >= s - 1542) by (nonlinear_arith)
        requires
            tdiv(sq, s) * s > sq - s,
            sq >= s * s - 6 * s - 1536 * s,
            s == 65536,
            tdiv(sq, s) >= 0,
    ;
    if l >= s {
        // Tighter two-sided bounds when the vector is at least one unit long.
        assert(d * (s * s) <= ((l + 1) * (l + 1) - 1 + s) * (s * s)) by (nonlinear_arith)
            requires
                d < (l + 1) * (l + 1) + s,
                s > 0,
        ;
        assert(sq <= s * s + 3 * s) by (nonlinear_arith)
            requires
                sq * (l * l) <= ((l + 1) * (l + 1) - 1 + s) * (s * s),
                l >= s,
                s == 65536,
                sq >= 0,
        ;
        assert((1536 * s) * l <= 1536 * (l * l)) by (nonlinear_arith)
            requires
                l >= s,
                s == 65536,
        ;
        assert(sq * (l * l) >= (l * l) * (s * s) - (6 * s) * (l * l) - 1536 * (l * l));
        assert(sq >= s * s - 6 * s - 1536) by (nonlinear_arith)
            requires
                sq * (l * l) >= (l * l) * (s * s) - (6 * s) * (l * l) - 1536 * (l * l),
                l >= 1,
        ;
        assert(tdiv(sq, s) >= s - 7) by (nonlinear_arith)
            requires
                tdiv(sq, s) * s > sq - s,
                sq >= s * s - 6 * s - 1536,
                s == 65536,
                tdiv(sq, s) >= 0,
        ;
        assert(tdiv(sq, s) <= s + 3) by (nonlinear_arith)
            requires
                tdiv(sq, s) * s <= sq,
                sq <= s * s + 3 * s,
                s == 65536,
                tdiv(sq, s) >= 0,
        ;
    }
}

/// Normalizing a vector of at least unit length yields a vector whose
/// fixed-point length is the scalar one, up to a few units in the last
/// place: it lies in `[SCALE - 4, SCALE + 1]`.
pub proof fn lemma_normalize_unit(v: Vec3)
    requires
        dot_s(v, v) <= i64::MAX,
        len_s(v) >= SCALE,
    ensures
        SCALE - 4 <= len_s(norm_s(v)) <= SCALE + 1,
{
    let s = SCALE as int;
    lemma_norm_len_sq(v);
    let n = norm_s(v);
    let lsq = len_sq_s(n);
    assert(s - 7 <= lsq <= s + 3);
    lemma_dot_self_nonneg(n);
    let ln = len_s(n);
    lemma_isqrt_bounds((lsq * s) as nat);
    assert(ln * ln <= lsq * s < (ln + 1) * (ln + 1));
    assert(lsq * s <= (s + 3) * s) by (nonlinear_arith)
        requires
            lsq <= s + 3,
            s > 0,
    ;
    assert((s + 3) * s < (s + 2) * (s + 2)) by (nonlinear_arith)
        requires
            s == 65536,
    ;
    assert(ln <= s + 1) by (nonlinear_arith)
        requires
            ln * ln < (s + 2) * (s + 2),
            ln >= 0,
            s > 0,
    ;
    assert(lsq * s >= (s - 7) * s) by (nonlinear_arith)
        requires
            lsq >= s - 7,
            s > 0,
    ;
    assert((s - 7) * s > (s - 4) * (s - 4)) by (nonlinear_arith)
        requires
            s == 65536,
    ;
    assert(ln >= s - 4) by (nonlinear_arith)
        requires
            (ln + 1) * (ln + 1) > (s - 4) * (s - 4),
            ln >= 0,
            s == 65536,
    ;
}

/// A normalized vector is itself usable: bounded components, a squared
/// length that fits the scalar range, and a nonzero length.
pub proof fn lemma_norm_usable(v: Vec3)
    requires
        dot_s(v, v) <= i64::MAX,
        len_s(v) >= 1,
    ensures
        v_in(norm_s(v), NORM_LIMIT as int),
        dot_s(norm_s(v), norm_s(v)) <= i64::MAX,
        len_s(norm_s(v)) >= 1,
        len_sq_s(norm_s(v)) >= SCALE - 1542,
{
    let s = SCALE as int;
    lemma_norm_in_limit(v);
    lemma_norm_len_sq(v);
    let n = norm_s(v);
    assert(n.x == fx_div_s(v.x as int, len_s(v)));
    lemma_dot_bound(n, n, NORM_LIMIT as int, NORM_LIMIT as int);
    assert(tdiv(3 * (NORM_LIMIT as int) * (NORM_LIMIT as int), s) <= i64::MAX) by (nonlinear_arith)
        requires
            s == 65536,
            NORM_LIMIT == 16842752,
            tdiv(3 * (NORM_LIMIT as int) * (NORM_LIMIT as int), s)
                == 3 * (NORM_LIMIT as int) * (NORM_LIMIT as int) / s,
    ;
    let lsq = len_sq_s(n);
    lemma_dot_self_nonneg(n);
    assert(lsq >= 0);
    assert(lsq * s >= 0) by (nonlinear_arith)
        requires
            lsq >= 0,
            s > 0,
    ;
    lemma_isqrt_bounds((lsq * s) as nat);
    let ln = len_s(n);
    assert(ln == isqrt_s((lsq * s) as nat) as int);
    assert(lsq * s < (ln + 1) * (ln + 1));
    if ln == 0 {
        assert(lsq * s >= (s - 1542) * s) by (nonlinear_arith)
            requires
                lsq >= s - 1542,
                s > 0,
        ;
        assert((s - 1542) * s > 1) by (nonlinear_arith)
            requires
                s == 65536,
        ;
        assert((ln + 1) * (ln + 1) == 1) by (nonlinear_arith)
            requires
                ln == 0,
        ;
        assert(false);
    }
}

impl Vec3 {
    /// Componentwise sum.
    pub fn add(self, other: Self) -> (r: Self)
        requires
            i64::MIN <= self.x + other.x <= i64::MAX,
            i64::MIN <= self.y + other.y <= i64::MAX,
            i64::MIN <= self.z + other.z <= i64::MAX,
        ensures
            r.x == self.x + other.x,
            r.y == self.y + other.y,
            r.z == self.z + other.z,
            r == add_s(self, other),
    {
        Vec3 { x: self.x + other.x, y: self.y + other.y, z: self.z + other.z }
    }

    /// Componentwise difference.
    pub fn sub(self, other: Self) -> (r: Self)
        requires
            i64::MIN <= self.x - other.x <= i64::MAX,
            i64::MIN <= self.y - other.y <= i64::MAX,
            i64::MIN <= self.z - other.z <= i64::MAX,
        ensures
            r.x == self.x - other.x,
            r.y == self.y - other.y,
            r.z == self.z - other.z,
    {
        Vec3 { x: self.x - other.x, y: self.y - other.y, z: self.z - other.z }
    }

    /// Componentwise negation.
    pub fn neg(self) -> (r: Self)
        requires
            self.x > i64::MIN,
            self.y > i64::MIN,
            self.z > i64::MIN,
        ensures
            r.x == -self.x,
            r.y == -self.y,
            r.z == -self.z,
            r == neg_s(self),
    {
        Vec3 { x: -self.x, y: -self.y, z: -self.z }
    }

    /// Scalar product.
    pub fn mul(self, s: i64) -> (r: Self)
        requires
            i64::MIN <= fx_mul_s(self.x as int, s as int) <= i64::MAX,
            i64::MIN <= fx_mul_s(self.y as int, s as int) <= i64::MAX,
            i64::MIN <= fx_mul_s(self.z as int, s as int) <= i64::MAX,
        ensures
            r.x == fx_mul_s(self.x as int, s as int),
            r.y == fx_mul_s(self.y as int, s as int),
            r.z == fx_mul_s(self.z as int, s as int),
            r == scale_v_s(self, s as int),
    {
        Vec3 { x: fx_mul(self.x, s), y: fx_mul(self.y, s), z: fx_mul(self.z, s) }
    }

    /// Scalar quotient; the divisor must be nonzero.
    pub fn div(self, s: i64) -> (r: Self)
        requires
            s != 0,
            i64::MIN <= fx_div_s(self.x as int, s as int) <= i64::MAX,
            i64::MIN <= fx_div_s(self.y as int, s as int) <= i64::MAX,
            i64::MIN <= fx_div_s(self.z as int, s as int) <= i64::MAX,
        ensures
            r.x == fx_div_s(self.x as int, s as int),
            r.y == fx_div_s(self.y as int, s as int),
            r.z == fx_div_s(self.z as int, s as int),
    {
        Vec3 { x: fx_div(self.x, s), y: fx_div(self.y, s), z: fx_div(self.z, s) }
    }

    /// Whether every component lies in `[-m, m]`.
    pub fn in_bounds(&self, m: i64) -> (r: bool)
        requires
            m >= 0,
        ensures
            r == v_in(*self, m as int),
    {
        -m <= self.x && self.x <= m && -m <= self.y && self.y <= m && -m <= self.z && self.z <= m
    }

    /// Component by index; only 0, 1 and 2 are valid.
    pub fn index(&self, index: usize) -> (r: i64)
        requires
            index < 3,
        ensures
            r == index_s(*self, index as int),
    {
        if index == 0 {
            self.x
        } else if index == 1 {
            self.y
        } else {
            self.z
        }
    }

    /// Replace the component at `index`; only 0, 1 and 2 are valid.
    pub fn set(&mut self, index: usize, value: i64)
        requires
            index < 3,
        ensures
            index == 0 ==> *final(self) == (Vec3 { x: value, ..*old(self) }),
            index == 1 ==> *final(self) == (Vec3 { y: value, ..*old(self) }),
            index == 2 ==> *final(self) == (Vec3 { z: value, ..*old(self) }),
    {
        if index == 0 {
            self.x = value;
        } else if index == 1 {
            self.y = value;
        } else {
            self.z = value;
        }
    }

    /// Componentwise sum in place.
    pub fn add_assign(&mut self, other: Self)
        requires
            i64::MIN <= old(self).x + other.x <= i64::MAX,
            i64::MIN <= old(self).y + other.y <= i64::MAX,
            i64::MIN <= old(self).z + other.z <= i64::MAX,
        ensures
            final(self).x == old(self).x + other.x,
            final(self).y == old(self).y + other.y,
            final(self).z == old(self).z + other.z,
    {
        self.x = self.x + other.x;
        self.y = self.y + other.y;
        self.z = self.z + other.z;
    }

    /// Componentwise difference in place.
    pub fn sub_assign(&mut self, other: Self)
        requires
            i64::MIN <= old(self).x - other.x <= i64::MAX,
            i64::MIN <= old(self).y - other.y <= i64::MAX,
            i64::MIN <= old(self).z - other.z <= i64::MAX,
        ensures
            final(self).x == old(self).x - other.x,
            final(self).y == old(self).y - other.y,
            final(self).z == old(self).z - other.z,
    {
        self.x = self.x - other.x;
        self.y = self.y - other.y;
        self.z = self.z - other.z;
    }

    /// Scalar product in place.
    pub fn mul_assign(&mut self, s: i64)
        requires
            i64::MIN <= fx_mul_s(old(self).x as int, s as int) <= i64::MAX,
            i64::MIN <= fx_mul_s(old(self).y as int, s as int) <= i64::MAX,
            i64::MIN <= fx_mul_s(old(self).z as int, s as int) <= i64::MAX,
        ensures
            final(self).x == fx_mul_s(old(self).x as int, s as int),
            final(self).y == fx_mul_s(old(self).y as int, s as int),
            final(self).z == fx_mul_s(old(self).z as int, s as int),
    {
        self.x = fx_mul(self.x, s);
        self.y = fx_mul(self.y, s);
        self.z = fx_mul(self.z, s);
    }

    /// Scalar quotient in place; the divisor must be nonzero.
    pub fn div_assign(&mut self, s: i64)
        requires
            s != 0,
            i64::MIN <= fx_div_s(old(self).x as int, s as int) <= i64::MAX,
            i64::MIN <= fx_div_s(old(self).y as int, s as int) <= i64::MAX,
            i64::MIN <= fx_div_s(old(self).z as int, s as int) <= i64::MAX,
        ensures
            final(self).x == fx_div_s(old(self).x as int, s as int),
            final(self).y == fx_div_s(old(self).y as int, s as int),
            final(self).z == fx_div_s(old(self).z as int, s as int),
    {
        self.x = fx_div(self.x, s);
        self.y = fx_div(self.y, s);
        self.z = fx_div(self.z, s);
    }
}

} // verus!
