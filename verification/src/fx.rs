//! 16.16 fixed-point scalar arithmetic.
//!
//! A scalar `x: i64` stands for the real number `x / SCALE`. Products and
//! quotients are computed in `i128` and rounded toward zero, exactly as the
//! spec functions below state.

use vstd::prelude::*;

verus! {

/// Scale of the fixed-point representation: the scalar `x` stands for the
/// real number `x / SCALE`.
pub const SCALE: i64 = 65536;

/// The absolute value of a mathematical integer.
pub open spec fn iabs(a: int) -> int {
    if a >= 0 {
        a
    } else {
        -a
    }
}

/// Truncating (round toward zero) division, the meaning of `/` on the
/// executable signed integer types. `b` is expected to be nonzero.
pub open spec fn tdiv(a: int, b: int) -> int {
    if a >= 0 {
        a / b
    } else {
        -((-a) / b)
    }
}

/// Fixed-point product: `a * b` rescaled, rounded toward zero.
pub open spec fn fx_mul_s(a: int, b: int) -> int {
    tdiv(a * b, SCALE as int)
}

/// Fixed-point quotient: `a / b` rescaled, rounded toward zero.
pub open spec fn fx_div_s(a: int, b: int) -> int {
    tdiv(a * SCALE, b)
}

/// Integer square root: the largest `r` with `r * r <= n`.
pub open spec fn isqrt_s(n: nat) -> nat
    decreases n,
{
    if n == 0 {
        0
    } else {
        let r = isqrt_s((n - 1) as nat);
        if (r + 1) * (r + 1) <= n {
            r + 1
        } else {
            r
        }
    }
}

/// Fixed-point square root of a nonnegative scalar.
pub open spec fn fx_sqrt_s(a: int) -> int {
    if a >= 0 {
        isqrt_s((a * SCALE) as nat) as int
    } else {
        0
    }
}

/// Clamp `x` into `[lo, hi]`.
pub open spec fn clamp_s(x: int, lo: int, hi: int) -> int {
    if x < lo {
        lo
    } else if x > hi {
        hi
    } else {
        x
    }
}

/// Fixed-point power with a natural exponent; `fx_pow_s(b, 0) == SCALE`,
/// the scalar one.
pub open spec fn fx_pow_s(b: int, e: nat) -> int
    decreases e,
{
    if e == 0 {
        SCALE as int
    } else {
        fx_mul_s(b, fx_pow_s(b, (e - 1) as nat))
    }
}

/// `isqrt_s` indeed brackets its argument between two consecutive squares.
pub proof fn lemma_isqrt_bounds(n: nat)
    ensures
        isqrt_s(n) * isqrt_s(n) <= n,
        n < (isqrt_s(n) + 1) * (isqrt_s(n) + 1),
    decreases n,
{
    if n == 0 {
        assert(isqrt_s(0) == 0);
        assert(isqrt_s(n) * isqrt_s(n) <= n);
        assert(n < (isqrt_s(n) + 1) * (isqrt_s(n) + 1)) by (nonlinear_arith)
            requires
                isqrt_s(n) == 0,
                n == 0,
        ;
    } else {
        lemma_isqrt_bounds((n - 1) as nat);
        let r = isqrt_s((n - 1) as nat);
        assert(r * r <= n - 1 < (r + 1) * (r + 1));
        if (r + 1) * (r + 1) <= n {
            assert(isqrt_s(n) == r + 1);
            assert(n < ((r + 1) + 1) * ((r + 1) + 1)) by (nonlinear_arith)
                requires
                    n < (r + 1) * (r + 1) + 1,
                    r >= 0,
            ;
            assert(n < (isqrt_s(n) + 1) * (isqrt_s(n) + 1));
        } else {
            assert(isqrt_s(n) == r);
            assert(isqrt_s(n) * isqrt_s(n) <= n);
            assert(n < (isqrt_s(n) + 1) * (isqrt_s(n) + 1));
        }
    }
}

/// Any `r` bracketed between consecutive squares around `n` is `isqrt_s(n)`.
pub proof fn lemma_isqrt_unique(n: nat, r: nat)
    requires
        r * r <= n,
        n < (r + 1) * (r + 1),
    ensures
        r == isqrt_s(n),
{
    lemma_isqrt_bounds(n);
    let s = isqrt_s(n);
    if r < s {
        assert((r + 1) * (r + 1) <= s * s) by (nonlinear_arith)
            requires
                r + 1 <= s,
                r >= 0,
        ;
    }
    if s < r {
        assert((s + 1) * (s + 1) <= r * r) by (nonlinear_arith)
            requires
                s + 1 <= r,
                s >= 0,
        ;
    }
}

/// Dividing an exact multiple is exact: `tdiv(a * b, b) == a` for positive `b`.
pub proof fn lemma_tdiv_mul_exact(a: int, b: int)
    requires
        b > 0,
    ensures
        tdiv(a * b, b) == a,
{
    if a >= 0 {
        assert((a * b) / b == a) by (nonlinear_arith)
            requires
                b > 0,
                a >= 0,
        ;
    } else {
        assert((-(a * b)) == (-a) * b) by (nonlinear_arith);
        assert(((-a) * b) / b == -a) by (nonlinear_arith)
            requires
                b > 0,
                -a >= 0,
        ;
    }
}

/// Truncating division shrinks magnitudes: a bound on `a` gives a bound on
/// `tdiv(a, b)`.
pub proof fn lemma_tdiv_bound(a: int, m: int, b: int)
    requires
        b > 0,
        -m <= a <= m,
        0 <= m,
    ensures
        -(m / b) <= tdiv(a, b) <= m / b,
{
    if a >= 0 {
        vstd::arithmetic::div_mod::lemma_div_is_ordered(a, m, b);
        vstd::arithmetic::div_mod::lemma_div_pos_is_pos(a, b);
    } else {
        vstd::arithmetic::div_mod::lemma_div_is_ordered(-a, m, b);
        vstd::arithmetic::div_mod::lemma_div_pos_is_pos(-a, b);
    }
}

/// The defining inequalities of truncating division by a positive divisor:
/// `tdiv(a, b) * b` falls within `b` of `a`, on the zero side of it.
pub proof fn lemma_tdiv_range(a: int, b: int)
    requires
        b > 0,
    ensures
        a >= 0 ==> a - b < tdiv(a, b) * b <= a,
        a < 0 ==> a <= tdiv(a, b) * b < a + b,
        a >= 0 ==> tdiv(a, b) >= 0,
        a < 0 ==> tdiv(a, b) <= 0,
{
    if a >= 0 {
        let q = a / b;
        vstd::arithmetic::div_mod::lemma_fundamental_div_mod(a, b);
        vstd::arithmetic::div_mod::lemma_mod_bound(a, b);
        vstd::arithmetic::div_mod::lemma_div_pos_is_pos(a, b);
        assert(q * b == b * q) by (nonlinear_arith);
    } else {
        let q = (-a) / b;
        vstd::arithmetic::div_mod::lemma_fundamental_div_mod(-a, b);
        vstd::arithmetic::div_mod::lemma_mod_bound(-a, b);
        vstd::arithmetic::div_mod::lemma_div_pos_is_pos(-a, b);
        assert(-a == b * q + ((-a) % b));
        assert((-q) * b == -(b * q)) by (nonlinear_arith);
        assert(tdiv(a, b) * b == -(b * q));
    }
}

/// A product of bounded factors is bounded.
pub proof fn lemma_abs_mul(a: int, b: int, ma: int, mb: int)
    requires
        -ma <= a <= ma,
        -mb <= b <= mb,
    ensures
        -(ma * mb) <= a * b <= ma * mb,
{
    assert(-(ma * mb) <= a * b <= ma * mb) by (nonlinear_arith)
        requires
            -ma <= a <= ma,
            -mb <= b <= mb,
    ;
}

/// A bounded fixed-point product: magnitudes at most `ma` and `mb` give a
/// product of magnitude at most `ma * mb / SCALE`.
pub proof fn lemma_fx_mul_bound(a: int, b: int, ma: int, mb: int)
    requires
        -ma <= a <= ma,
        -mb <= b <= mb,
        0 <= ma,
        0 <= mb,
    ensures
        -((ma * mb) / (SCALE as int)) <= fx_mul_s(a, b) <= (ma * mb) / (SCALE as int),
{
    lemma_abs_mul(a, b, ma, mb);
    lemma_tdiv_bound(a * b, ma * mb, SCALE as int);
}

/// The fixed-point product of scalars in `[0, SCALE]` stays in `[0, SCALE]`.
pub proof fn lemma_fx_mul_unit(a: int, b: int)
    requires
        0 <= a <= SCALE,
        0 <= b <= SCALE,
    ensures
        0 <= fx_mul_s(a, b) <= SCALE,
{
    assert(a * b <= (SCALE as int) * (SCALE as int)) by (nonlinear_arith)
        requires
            0 <= a <= SCALE,
            0 <= b <= SCALE,
    ;
    assert(a * b >= 0) by (nonlinear_arith)
        requires
            0 <= a,
            0 <= b,
    ;
    lemma_tdiv_bound(a * b, (SCALE as int) * (SCALE as int), SCALE as int);
    assert(((SCALE as int) * (SCALE as int)) / (SCALE as int) == SCALE as int) by (nonlinear_arith);
    lemma_tdiv_range(a * b, SCALE as int);
}

/// Flipping the divisor's sign flips the truncated quotient's sign.
pub proof fn lemma_tdiv_neg_divisor(a: int, d: int)
    requires
        d > 0,
    ensures
        tdiv(a, -d) == -tdiv(a, d),
{
    if a >= 0 {
        assert(a / (-d) == -(a / d)) by (nonlinear_arith)
            requires
                d > 0,
                a >= 0,
        ;
    } else {
        assert((-a) / (-d) == -((-a) / d)) by (nonlinear_arith)
            requires
                d > 0,
                -a >= 0,
        ;
    }
}

/// Truncating division of wide scalars; the divisor may have either sign.
pub fn tdiv_i128(a: i128, b: i128) -> (r: i128)
    requires
        b != 0,
        i128::MIN < a,
        i128::MIN < b,
    ensures
        r == tdiv(a as int, b as int),
{
    if b > 0 {
        a / b
    } else {
        proof {
            lemma_tdiv_neg_divisor(a as int, -(b as int));
            lemma_tdiv_bound_weak(a as int, -(b as int));
        }
        -(a / (-b))
    }
}

/// The magnitude of a truncated quotient never exceeds the magnitude of the
/// dividend.
pub proof fn lemma_tdiv_bound_weak(a: int, b: int)
    requires
        b > 0,
    ensures
        iabs(tdiv(a, b)) <= iabs(a),
{
    if a >= 0 {
        lemma_tdiv_bound(a, a, b);
        vstd::arithmetic::div_mod::lemma_div_is_ordered_by_denominator(a, 1, b);
        vstd::arithmetic::div_mod::lemma_div_by_self(1);
        assert(a / 1 == a) by (nonlinear_arith);
    } else {
        lemma_tdiv_bound(a, -a, b);
        vstd::arithmetic::div_mod::lemma_div_is_ordered_by_denominator(-a, 1, b);
        assert((-a) / 1 == -a) by (nonlinear_arith);
    }
}

/// Fixed-point product of two scalars.
pub fn fx_mul(a: i64, b: i64) -> (r: i64)
    requires
        i64::MIN <= fx_mul_s(a as int, b as int) <= i64::MAX,
    ensures
        r == fx_mul_s(a as int, b as int),
{
    let p: i128 = (a as i128) * (b as i128);
    let q: i128 = p / (SCALE as i128);
    q as i64
}

/// Fixed-point quotient of two scalars; the divisor must be nonzero.
pub fn fx_div(a: i64, b: i64) -> (r: i64)
    requires
        b != 0,
        i64::MIN <= fx_div_s(a as int, b as int) <= i64::MAX,
    ensures
        r == fx_div_s(a as int, b as int),
{
    let p: i128 = (a as i128) * (SCALE as i128);
    let q: i128 = p / (b as i128);
    q as i64
}

/// Integer square root by bisection.
fn isqrt_u128(n: u128) -> (r: u128)
    requires
        n < 0x4000_0000_0000_0000_0000_0000_0000_0000u128,
    ensures
        r * r <= n < (r + 1) * (r + 1),
        r == isqrt_s(n as nat),
{
    let mut lo: u128 = 0;
    let mut hi: u128 = 0x8000_0000_0000_0000u128;
    proof {
        assert(0x8000_0000_0000_0000u128 * 0x8000_0000_0000_0000u128
            == 0x4000_0000_0000_0000_0000_0000_0000_0000u128) by (nonlinear_arith);
    }
    while lo + 1 < hi
        invariant
            lo < hi,
            hi <= 0x8000_0000_0000_0000u128,
            lo * lo <= n,
            n < hi * hi,
        decreases hi - lo,
    {
        let mid: u128 = lo + (hi - lo) / 2;
        assert(mid * mid <= 0x8000_0000_0000_0000u128 * 0x8000_0000_0000_0000u128)
            by (nonlinear_arith)
            requires
                0 <= mid <= 0x8000_0000_0000_0000u128,
        ;
        if mid * mid <= n {
            lo = mid;
        } else {
            hi = mid;
        }
    }
    proof {
        lemma_isqrt_unique(n as nat, lo as nat);
    }
    lo
}

/// Fixed-point square root of a nonnegative scalar.
pub fn fx_sqrt(a: i64) -> (r: i64)
    requires
        0 <= a,
    ensures
        r == fx_sqrt_s(a as int),
        0 <= r,
{
    let n: u128 = (a as u128) * (SCALE as u128);
    proof {
        assert((a as u128) * (SCALE as u128) < 0x4000_0000_0000_0000_0000_0000_0000_0000u128)
            by (nonlinear_arith)
            requires
                0 <= a <= i64::MAX,
        ;
    }
    let r = isqrt_u128(n);
    proof {
        if r > 0x7fff_ffff_ffff_ffff {
            assert(r * r >= (0x8000_0000_0000_0000u128) * (0x8000_0000_0000_0000u128))
                by (nonlinear_arith)
                requires
                    r >= 0x8000_0000_0000_0000u128,
            ;
            assert(false);
        }
    }
    r as i64
}

/// Fixed-point square root of a nonnegative wide scalar.
pub fn fx_sqrt_wide(a: i128) -> (r: i128)
    requires
        0 <= a,
        a * SCALE < 0x4000_0000_0000_0000_0000_0000_0000_0000,
    ensures
        r == fx_sqrt_s(a as int),
        0 <= r,
{
    proof {
        assert((a as u128) * (SCALE as u128) == a * (SCALE as int)) by (nonlinear_arith)
            requires
                0 <= a,
                SCALE == 65536,
                a * SCALE < 0x4000_0000_0000_0000_0000_0000_0000_0000,
        ;
    }
    let n: u128 = (a as u128) * (SCALE as u128);
    let r = isqrt_u128(n);
    proof {
        assert(r < 0x8000_0000_0000_0000u128) by (nonlinear_arith)
            requires
                r * r < 0x4000_0000_0000_0000_0000_0000_0000_0000,
                r >= 0,
        ;
    }
    r as i128
}

/// A square root below a given square: if `a * SCALE < m * m` then the
/// fixed-point root of `a` is below `m`.
pub proof fn lemma_fx_sqrt_lt(a: int, m: int)
    requires
        0 <= a,
        a * SCALE < m * m,
        0 < m,
    ensures
        0 <= fx_sqrt_s(a) < m,
{
    assert(a * SCALE >= 0) by (nonlinear_arith)
        requires
            a >= 0,
            SCALE == 65536,
    ;
    lemma_isqrt_bounds((a * SCALE) as nat);
    let r = isqrt_s((a * SCALE) as nat) as int;
    if r >= m {
        assert(m * m <= r * r) by (nonlinear_arith)
            requires
                0 < m <= r,
        ;
    }
}

/// Clamp a scalar into `[lo, hi]`.
pub fn fx_clamp(x: i64, lo: i64, hi: i64) -> (r: i64)
    requires
        lo <= hi,
    ensures
        r == clamp_s(x as int, lo as int, hi as int),
{
    if x < lo {
        lo
    } else if x > hi {
        hi
    } else {
        x
    }
}

/// Fixed-point power of a scalar in `[0, SCALE]`.
pub fn fx_pow(b: i64, e: u32) -> (r: i64)
    requires
        0 <= b <= SCALE,
    ensures
        r == fx_pow_s(b as int, e as nat),
        0 <= r <= SCALE,
{
    let mut acc: i64 = SCALE;
    let mut i: u32 = 0;
    while i < e
        invariant
            0 <= i <= e,
            0 <= b <= SCALE,
            acc == fx_pow_s(b as int, i as nat),
            0 <= acc <= SCALE,
        decreases e - i,
    {
        proof {
            lemma_fx_mul_unit(b as int, acc as int);
        }
        acc = fx_mul(b, acc);
        i = i + 1;
    }
    acc
}

} // verus!

