//! Fixed-point sine and cosine of angles given in degrees.
//!
//! An angle is reduced modulo a full turn, folded into the first quadrant,
//! converted to radians, and evaluated by a short alternating polynomial on
//! `[0, 45]` degrees. Quadrant boundaries are exact: multiples of ninety
//! degrees yield exactly `0`, `SCALE` or `-SCALE`.

use vstd::prelude::*;
use crate::fx::{SCALE, fx_mul_s, tdiv, fx_mul, lemma_fx_mul_unit, lemma_tdiv_bound,
    lemma_tdiv_range};

verus! {

/// One full turn, in fixed-point degrees.
pub const DEG_FULL: i64 = 23592960;

/// A quarter turn, in fixed-point degrees.
pub const DEG_QUARTER: i64 = 5898240;

/// An eighth of a turn, in fixed-point degrees.
pub const DEG_EIGHTH: i64 = 2949120;

/// The scaled circle constant: the closest fixed-point value to pi.
pub const PI_FX: i64 = 205887;

/// One hundred eighty degrees times the scale, the divisor of the
/// degree-to-radian conversion.
pub const RAD_DIV: i64 = 11796480;

/// Degrees to radians: multiply by the scaled circle constant and divide by
/// the scaled half turn.
pub open spec fn rad_s(x: int) -> int {
    tdiv(x * (PI_FX as int), RAD_DIV as int)
}

/// The sine polynomial on `[0, 45]` degrees in radians:
/// `r * (1 - r^2/6 * (1 - r^2/20 * (1 - r^2/42)))`, each factor scaled.
pub open spec fn sin_poly_s(r: int) -> int {
    let r2 = fx_mul_s(r, r);
    let t42 = (SCALE as int) - fx_mul_s(r2, 1560);
    let t20 = (SCALE as int) - fx_mul_s(fx_mul_s(r2, 3277), t42);
    fx_mul_s(r, (SCALE as int) - fx_mul_s(fx_mul_s(r2, 10923), t20))
}

/// The cosine polynomial on `[0, 45]` degrees in radians:
/// `1 - r^2/2 * (1 - r^2/12 * (1 - r^2/30))`, each factor scaled.
pub open spec fn cos_poly_s(r: int) -> int {
    let r2 = fx_mul_s(r, r);
    let t30 = (SCALE as int) - fx_mul_s(r2, 2185);
    let t12 = (SCALE as int) - fx_mul_s(fx_mul_s(r2, 5461), t30);
    (SCALE as int) - fx_mul_s(fx_mul_s(r2, 32768), t12)
}

/// Sine on the first quadrant `[0, 90)` degrees, folding the upper half
/// onto the cosine polynomial.
pub open spec fn sin_q_s(x: int) -> int {
    if x <= DEG_EIGHTH {
        sin_poly_s(rad_s(x))
    } else {
        cos_poly_s(rad_s(DEG_QUARTER as int - x))
    }
}

/// Cosine on the first quadrant `[0, 90)` degrees.
pub open spec fn cos_q_s(x: int) -> int {
    if x <= DEG_EIGHTH {
        cos_poly_s(rad_s(x))
    } else {
        sin_poly_s(rad_s(DEG_QUARTER as int - x))
    }
}

/// The angle folded into `[0, 360)` degrees; spec `%` is Euclidean, so the
/// result is nonnegative.
pub open spec fn wrap_deg_s(deg: int) -> int {
    deg % (DEG_FULL as int)
}

/// Sine of an arbitrary angle in fixed-point degrees.
pub open spec fn sin_deg_s(deg: int) -> int {
    let a = wrap_deg_s(deg);
    if a < DEG_QUARTER {
        sin_q_s(a)
    } else if a < 2 * DEG_QUARTER {
        cos_q_s(a - DEG_QUARTER)
    } else if a < 3 * DEG_QUARTER {
        -sin_q_s(a - 2 * DEG_QUARTER)
    } else {
        -cos_q_s(a - 3 * DEG_QUARTER)
    }
}

/// Cosine of an arbitrary angle in fixed-point degrees.
pub open spec fn cos_deg_s(deg: int) -> int {
    let a = wrap_deg_s(deg);
    if a < DEG_QUARTER {
        cos_q_s(a)
    } else if a < 2 * DEG_QUARTER {
        -sin_q_s(a - DEG_QUARTER)
    } else if a < 3 * DEG_QUARTER {
        -cos_q_s(a - 2 * DEG_QUARTER)
    } else {
        sin_q_s(a - 3 * DEG_QUARTER)
    }
}

/// On `[0, 45]` degrees the radian value lies in `[0, 51472]`.
proof fn lemma_rad_range(x: int)
    requires
        0 <= x <= DEG_EIGHTH,
    ensures
        0 <= rad_s(x) <= 51472,
{
    let m = (DEG_EIGHTH as int) * (PI_FX as int);
    assert(0 <= x * (PI_FX as int) <= m) by (nonlinear_arith)
        requires
            0 <= x <= DEG_EIGHTH,
            PI_FX == 205887,
            m == (DEG_EIGHTH as int) * (PI_FX as int),
    ;
    lemma_tdiv_bound(x * (PI_FX as int), m, RAD_DIV as int);
    lemma_tdiv_range(x * (PI_FX as int), RAD_DIV as int);
    assert(m / (RAD_DIV as int) <= 51472) by (nonlinear_arith)
        requires
            m == 2949120 * 205887,
            RAD_DIV == 11796480,
            (RAD_DIV as int) * 51472 + 11796480 > m,
            m / (RAD_DIV as int) * (RAD_DIV as int) <= m,
            m / (RAD_DIV as int) >= 0,
    ;
}

/// The polynomial values stay within the unit range on the folded domain.
proof fn lemma_poly_range(r: int)
    requires
        0 <= r <= 51472,
    ensures
        0 <= sin_poly_s(r) <= SCALE,
        0 <= cos_poly_s(r) <= SCALE,
{
    let s = SCALE as int;
    let r2 = fx_mul_s(r, r);
    lemma_fx_mul_unit(r, r);
    lemma_fx_mul_unit(r2, 1560);
    let t42 = s - fx_mul_s(r2, 1560);
    lemma_fx_mul_unit(r2, 3277);
    lemma_fx_mul_unit(fx_mul_s(r2, 3277), t42);
    let t20 = s - fx_mul_s(fx_mul_s(r2, 3277), t42);
    lemma_fx_mul_unit(r2, 10923);
    lemma_fx_mul_unit(fx_mul_s(r2, 10923), t20);
    lemma_fx_mul_unit(r, s - fx_mul_s(fx_mul_s(r2, 10923), t20));
    lemma_fx_mul_unit(r2, 2185);
    let t30 = s - fx_mul_s(r2, 2185);
    lemma_fx_mul_unit(r2, 5461);
    lemma_fx_mul_unit(fx_mul_s(r2, 5461), t30);
    let t12 = s - fx_mul_s(fx_mul_s(r2, 5461), t30);
    lemma_fx_mul_unit(r2, 32768);
    lemma_fx_mul_unit(fx_mul_s(r2, 32768), t12);
}

/// The quadrant functions stay within the unit range.
proof fn lemma_q_range(x: int)
    requires
        0 <= x < DEG_QUARTER,
    ensures
        0 <= sin_q_s(x) <= SCALE,
        0 <= cos_q_s(x) <= SCALE,
{
    if x <= DEG_EIGHTH {
        lemma_rad_range(x);
        lemma_poly_range(rad_s(x));
    } else {
        lemma_rad_range(DEG_QUARTER as int - x);
        lemma_poly_range(rad_s(DEG_QUARTER as int - x));
    }
}

/// Degrees to radians on the folded domain.
fn to_rad(x: i64) -> (r: i64)
    requires
        0 <= x <= DEG_EIGHTH,
    ensures
        r == rad_s(x as int),
        0 <= r <= 51472,
{
    proof {
        lemma_rad_range(x as int);
    }
    let p: i128 = (x as i128) * (PI_FX as i128);
    let q: i128 = p / (RAD_DIV as i128);
    q as i64
}

/// The sine polynomial on the folded domain.
fn sin_poly(r: i64) -> (v: i64)
    requires
        0 <= r <= 51472,
    ensures
        v == sin_poly_s(r as int),
        0 <= v <= SCALE,
{
    proof {
        lemma_poly_range(r as int);
        let s = SCALE as int;
        let r2 = fx_mul_s(r as int, r as int);
        lemma_fx_mul_unit(r as int, r as int);
        lemma_fx_mul_unit(r2, 1560);
        let t42 = s - fx_mul_s(r2, 1560);
        lemma_fx_mul_unit(r2, 3277);
        lemma_fx_mul_unit(fx_mul_s(r2, 3277), t42);
        let t20 = s - fx_mul_s(fx_mul_s(r2, 3277), t42);
        lemma_fx_mul_unit(r2, 10923);
        lemma_fx_mul_unit(fx_mul_s(r2, 10923), t20);
        lemma_fx_mul_unit(r as int, s - fx_mul_s(fx_mul_s(r2, 10923), t20));
    }
    let r2 = fx_mul(r, r);
    let t42 = SCALE - fx_mul(r2, 1560);
    let t20 = SCALE - fx_mul(fx_mul(r2, 3277), t42);
    fx_mul(r, SCALE - fx_mul(fx_mul(r2, 10923), t20))
}

/// The cosine polynomial on the folded domain.
fn cos_poly(r: i64) -> (v: i64)
    requires
        0 <= r <= 51472,
    ensures
        v == cos_poly_s(r as int),
        0 <= v <= SCALE,
{
    proof {
        lemma_poly_range(r as int);
        let s = SCALE as int;
        let r2 = fx_mul_s(r as int, r as int);
        lemma_fx_mul_unit(r as int, r as int);
        lemma_fx_mul_unit(r2, 2185);
        let t30 = s - fx_mul_s(r2, 2185);
        lemma_fx_mul_unit(r2, 5461);
        lemma_fx_mul_unit(fx_mul_s(r2, 5461), t30);
        let t12 = s - fx_mul_s(fx_mul_s(r2, 5461), t30);
        lemma_fx_mul_unit(r2, 32768);
        lemma_fx_mul_unit(fx_mul_s(r2, 32768), t12);
    }
    let r2 = fx_mul(r, r);
    let t30 = SCALE - fx_mul(r2, 2185);
    let t12 = SCALE - fx_mul(fx_mul(r2, 5461), t30);
    SCALE - fx_mul(fx_mul(r2, 32768), t12)
}

/// Fold an angle into `[0, 360)` degrees.
fn wrap_deg(deg: i64) -> (a: i64)
    ensures
        a == wrap_deg_s(deg as int),
        0 <= a < DEG_FULL,
{
    proof {
        vstd::arithmetic::div_mod::lemma_mod_bound(deg as int, DEG_FULL as int);
    }
    let m = deg % DEG_FULL;
    if m < 0 {
        m + DEG_FULL
    } else {
        m
    }
}

/// Sine on the first quadrant.
fn sin_q(x: i64) -> (v: i64)
    requires
        0 <= x < DEG_QUARTER,
    ensures
        v == sin_q_s(x as int),
        0 <= v <= SCALE,
{
    if x <= DEG_EIGHTH {
        sin_poly(to_rad(x))
    } else {
        cos_poly(to_rad(DEG_QUARTER - x))
    }
}

/// Cosine on the first quadrant.
fn cos_q(x: i64) -> (v: i64)
    requires
        0 <= x < DEG_QUARTER,
    ensures
        v == cos_q_s(x as int),
        0 <= v <= SCALE,
{
    if x <= DEG_EIGHTH {
        cos_poly(to_rad(x))
    } else {
        sin_poly(to_rad(DEG_QUARTER - x))
    }
}

/// Fixed-point sine of an angle in fixed-point degrees.
pub fn sin_deg(deg: i64) -> (v: i64)
    ensures
        v == sin_deg_s(deg as int),
        -SCALE <= v <= SCALE,
{
    let a = wrap_deg(deg);
    if a < DEG_QUARTER {
        sin_q(a)
    } else if a < 2 * DEG_QUARTER {
        cos_q(a - DEG_QUARTER)
    } else if a < 3 * DEG_QUARTER {
        -sin_q(a - 2 * DEG_QUARTER)
    } else {
        -cos_q(a - 3 * DEG_QUARTER)
    }
}

/// Fixed-point cosine of an angle in fixed-point degrees.
pub fn cos_deg(deg: i64) -> (v: i64)
    ensures
        v == cos_deg_s(deg as int),
        -SCALE <= v <= SCALE,
{
    let a = wrap_deg(deg);
    if a < DEG_QUARTER {
        cos_q(a)
    } else if a < 2 * DEG_QUARTER {
        -sin_q(a - DEG_QUARTER)
    } else if a < 3 * DEG_QUARTER {
        -cos_q(a - 2 * DEG_QUARTER)
    } else {
        sin_q(a - 3 * DEG_QUARTER)
    }
}

} // verus!
