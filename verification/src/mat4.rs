//! Row-major 4x4 matrices over fixed-point scalars, the carrier of affine
//! transforms.

use vstd::prelude::*;
use crate::fx::{SCALE, tdiv, lemma_abs_mul, lemma_tdiv_bound};

verus! {

/// Largest entry magnitude `Mat4::multiply` and the transform applications
/// accept; it keeps every intermediate product and the resulting entries
/// representable.
pub const MAT_LIMIT: i64 = 0x40_0000_0000;

/// A row-major 4x4 matrix of 16.16 fixed-point scalars.
#[derive(Clone, Copy, Debug, PartialEq, Eq, Structural)]
pub struct Mat4 {
    pub a00: i64,
    pub a01: i64,
    pub a02: i64,
    pub a03: i64,
    pub a10: i64,
    pub a11: i64,
    pub a12: i64,
    pub a13: i64,
    pub a20: i64,
    pub a21: i64,
    pub a22: i64,
    pub a23: i64,
    pub a30: i64,
    pub a31: i64,
    pub a32: i64,
    pub a33: i64,
}

/// All sixteen entries lie in `[-m, m]`.
pub open spec fn m_in(m: Mat4, k: int) -> bool {
    -k <= m.a00 <= k
        && -k <= m.a01 <= k
        && -k <= m.a02 <= k
        && -k <= m.a03 <= k
        && -k <= m.a10 <= k
        && -k <= m.a11 <= k
        && -k <= m.a12 <= k
        && -k <= m.a13 <= k
        && -k <= m.a20 <= k
        && -k <= m.a21 <= k
        && -k <= m.a22 <= k
        && -k <= m.a23 <= k
        && -k <= m.a30 <= k
        && -k <= m.a31 <= k
        && -k <= m.a32 <= k
        && -k <= m.a33 <= k
}

/// One entry of a fixed-point matrix product: the scaled inner product of a
/// row and a column.
pub open spec fn cell_s(x0: int, x1: int, x2: int, x3: int, y0: int, y1: int, y2: int, y3: int) -> int {
    tdiv(x0 * y0 + x1 * y1 + x2 * y2 + x3 * y3, SCALE as int)
}

/// The fixed-point matrix product, for in-range values.
pub open spec fn mat_mul_s(m1: Mat4, m2: Mat4) -> Mat4 {
    Mat4 {
        a00: cell_s(m1.a00 as int, m1.a01 as int, m1.a02 as int, m1.a03 as int, m2.a00 as int, m2.a10 as int, m2.a20 as int, m2.a30 as int) as i64,
        a01: cell_s(m1.a00 as int, m1.a01 as int, m1.a02 as int, m1.a03 as int, m2.a01 as int, m2.a11 as int, m2.a21 as int, m2.a31 as int) as i64,
        a02: cell_s(m1.a00 as int, m1.a01 as int, m1.a02 as int, m1.a03 as int, m2.a02 as int, m2.a12 as int, m2.a22 as int, m2.a32 as int) as i64,
        a03: cell_s(m1.a00 as int, m1.a01 as int, m1.a02 as int, m1.a03 as int, m2.a03 as int, m2.a13 as int, m2.a23 as int, m2.a33 as int) as i64,
        a10: cell_s(m1.a10 as int, m1.a11 as int, m1.a12 as int, m1.a13 as int, m2.a00 as int, m2.a10 as int, m2.a20 as int, m2.a30 as int) as i64,
        a11: cell_s(m1.a10 as int, m1.a11 as int, m1.a12 as int, m1.a13 as int, m2.a01 as int, m2.a11 as int, m2.a21 as int, m2.a31 as int) as i64,
        a12: cell_s(m1.a10 as int, m1.a11 as int, m1.a12 as int, m1.a13 as int, m2.a02 as int, m2.a12 as int, m2.a22 as int, m2.a32 as int) as i64,
        a13: cell_s(m1.a10 as int, m1.a11 as int, m1.a12 as int, m1.a13 as int, m2.a03 as int, m2.a13 as int, m2.a23 as int, m2.a33 as int) as i64,
        a20: cell_s(m1.a20 as int, m1.a21 as int, m1.a22 as int, m1.a23 as int, m2.a00 as int, m2.a10 as int, m2.a20 as int, m2.a30 as int) as i64,
        a21: cell_s(m1.a20 as int, m1.a21 as int, m1.a22 as int, m1.a23 as int, m2.a01 as int, m2.a11 as int, m2.a21 as int, m2.a31 as int) as i64,
        a22: cell_s(m1.a20 as int, m1.a21 as int, m1.a22 as int, m1.a23 as int, m2.a02 as int, m2.a12 as int, m2.a22 as int, m2.a32 as int) as i64,
        a23: cell_s(m1.a20 as int, m1.a21 as int, m1.a22 as int, m1.a23 as int, m2.a03 as int, m2.a13 as int, m2.a23 as int, m2.a33 as int) as i64,
        a30: cell_s(m1.a30 as int, m1.a31 as int, m1.a32 as int, m1.a33 as int, m2.a00 as int, m2.a10 as int, m2.a20 as int, m2.a30 as int) as i64,
        a31: cell_s(m1.a30 as int, m1.a31 as int, m1.a32 as int, m1.a33 as int, m2.a01 as int, m2.a11 as int, m2.a21 as int, m2.a31 as int) as i64,
        a32: cell_s(m1.a30 as int, m1.a31 as int, m1.a32 as int, m1.a33 as int, m2.a02 as int, m2.a12 as int, m2.a22 as int, m2.a32 as int) as i64,
        a33: cell_s(m1.a30 as int, m1.a31 as int, m1.a32 as int, m1.a33 as int, m2.a03 as int, m2.a13 as int, m2.a23 as int, m2.a33 as int) as i64,
    }
}

/// A product entry of rows and columns bounded by `MAT_LIMIT` is bounded by
/// four scaled products of the limits.
pub proof fn lemma_cell_bound(x0: int, x1: int, x2: int, x3: int, y0: int, y1: int, y2: int, y3: int)
    requires
        -(MAT_LIMIT as int) <= x0 <= MAT_LIMIT as int,
        -(MAT_LIMIT as int) <= x1 <= MAT_LIMIT as int,
        -(MAT_LIMIT as int) <= x2 <= MAT_LIMIT as int,
        -(MAT_LIMIT as int) <= x3 <= MAT_LIMIT as int,
        -(MAT_LIMIT as int) <= y0 <= MAT_LIMIT as int,
        -(MAT_LIMIT as int) <= y1 <= MAT_LIMIT as int,
        -(MAT_LIMIT as int) <= y2 <= MAT_LIMIT as int,
        -(MAT_LIMIT as int) <= y3 <= MAT_LIMIT as int,
    ensures
        -0x4000_0000_0000_0000 <= cell_s(x0, x1, x2, x3, y0, y1, y2, y3) <= 0x4000_0000_0000_0000,
        -0x1000_0000_0000_0000_0000 <= x0 * y0 <= 0x1000_0000_0000_0000_0000,
        -0x1000_0000_0000_0000_0000 <= x1 * y1 <= 0x1000_0000_0000_0000_0000,
        -0x1000_0000_0000_0000_0000 <= x2 * y2 <= 0x1000_0000_0000_0000_0000,
        -0x1000_0000_0000_0000_0000 <= x3 * y3 <= 0x1000_0000_0000_0000_0000,
{
    let k = MAT_LIMIT as int;
    assert(k * k == 0x1000_0000_0000_0000_0000) by (nonlinear_arith)
        requires
            k == 0x40_0000_0000,
    ;
    lemma_abs_mul(x0, y0, k, k);
    lemma_abs_mul(x1, y1, k, k);
    lemma_abs_mul(x2, y2, k, k);
    lemma_abs_mul(x3, y3, k, k);
    assert(4 * (k * k) == k * k + k * k + k * k + k * k) by (nonlinear_arith);
    assert(4 * (k * k) >= 0) by (nonlinear_arith)
        requires
            k >= 0,
    ;
    lemma_tdiv_bound(x0 * y0 + x1 * y1 + x2 * y2 + x3 * y3, 4 * (k * k), SCALE as int);
    assert((4 * (k * k)) / (SCALE as int) == 0x4000_0000_0000_0000) by (nonlinear_arith)
        requires
            k == 0x40_0000_0000,
            SCALE == 65536,
    ;
}

impl Mat4 {
    #[allow(clippy::too_many_arguments)]
    pub fn new(
        a00: i64, a01: i64, a02: i64, a03: i64, a10: i64, a11: i64, a12: i64, a13: i64, a20: i64, a21: i64, a22: i64, a23: i64, a30: i64, a31: i64, a32: i64, a33: i64,
    ) -> (r: Self)
        ensures
            r.a00 == a00,
            r.a01 == a01,
            r.a02 == a02,
            r.a03 == a03,
            r.a10 == a10,
            r.a11 == a11,
            r.a12 == a12,
            r.a13 == a13,
            r.a20 == a20,
            r.a21 == a21,
            r.a22 == a22,
            r.a23 == a23,
            r.a30 == a30,
            r.a31 == a31,
            r.a32 == a32,
            r.a33 == a33,
    {
        Mat4 {
            a00, a01, a02, a03, a10, a11, a12, a13, a20, a21, a22, a23, a30, a31, a32, a33,
        }
    }

    /// The fixed-point matrix product; not commutative.
    pub fn multiply(m1: &Mat4, m2: &Mat4) -> (r: Self)
        requires
            m_in(*m1, MAT_LIMIT as int),
            m_in(*m2, MAT_LIMIT as int),
        ensures
            r == mat_mul_s(*m1, *m2),
            m_in(r, 0x4000_0000_0000_0000),
    {
        proof {
            lemma_cell_bound(m1.a00 as int, m1.a01 as int, m1.a02 as int, m1.a03 as int, m2.a00 as int, m2.a10 as int, m2.a20 as int, m2.a30 as int);
            lemma_cell_bound(m1.a00 as int, m1.a01 as int, m1.a02 as int, m1.a03 as int, m2.a01 as int, m2.a11 as int, m2.a21 as int, m2.a31 as int);
            lemma_cell_bound(m1.a00 as int, m1.a01 as int, m1.a02 as int, m1.a03 as int, m2.a02 as int, m2.a12 as int, m2.a22 as int, m2.a32 as int);
            lemma_cell_bound(m1.a00 as int, m1.a01 as int, m1.a02 as int, m1.a03 as int, m2.a03 as int, m2.a13 as int, m2.a23 as int, m2.a33 as int);
            lemma_cell_bound(m1.a10 as int, m1.a11 as int, m1.a12 as int, m1.a13 as int, m2.a00 as int, m2.a10 as int, m2.a20 as int, m2.a30 as int);
            lemma_cell_bound(m1.a10 as int, m1.a11 as int, m1.a12 as int, m1.a13 as int, m2.a01 as int, m2.a11 as int, m2.a21 as int, m2.a31 as int);
            lemma_cell_bound(m1.a10 as int, m1.a11 as int, m1.a12 as int, m1.a13 as int, m2.a02 as int, m2.a12 as int, m2.a22 as int, m2.a32 as int);
            lemma_cell_bound(m1.a10 as int, m1.a11 as int, m1.a12 as int, m1.a13 as int, m2.a03 as int, m2.a13 as int, m2.a23 as int, m2.a33 as int);
            lemma_cell_bound(m1.a20 as int, m1.a21 as int, m1.a22 as int, m1.a23 as int, m2.a00 as int, m2.a10 as int, m2.a20 as int, m2.a30 as int);
            lemma_cell_bound(m1.a20 as int, m1.a21 as int, m1.a22 as int, m1.a23 as int, m2.a01 as int, m2.a11 as int, m2.a21 as int, m2.a31 as int);
            lemma_cell_bound(m1.a20 as int, m1.a21 as int, m1.a22 as int, m1.a23 as int, m2.a02 as int, m2.a12 as int, m2.a22 as int, m2.a32 as int);
            lemma_cell_bound(m1.a20 as int, m1.a21 as int, m1.a22 as int, m1.a23 as int, m2.a03 as int, m2.a13 as int, m2.a23 as int, m2.a33 as int);
            lemma_cell_bound(m1.a30 as int, m1.a31 as int, m1.a32 as int, m1.a33 as int, m2.a00 as int, m2.a10 as int, m2.a20 as int, m2.a30 as int);
            lemma_cell_bound(m1.a30 as int, m1.a31 as int, m1.a32 as int, m1.a33 as int, m2.a01 as int, m2.a11 as int, m2.a21 as int, m2.a31 as int);
            lemma_cell_bound(m1.a30 as int, m1.a31 as int, m1.a32 as int, m1.a33 as int, m2.a02 as int, m2.a12 as int, m2.a22 as int, m2.a32 as int);
            lemma_cell_bound(m1.a30 as int, m1.a31 as int, m1.a32 as int, m1.a33 as int, m2.a03 as int, m2.a13 as int, m2.a23 as int, m2.a33 as int);
        }
        Mat4 {
            a00: (((m1.a00 as i128) * (m2.a00 as i128) + (m1.a01 as i128) * (m2.a10 as i128) + (m1.a02 as i128) * (m2.a20 as i128) + (m1.a03 as i128) * (m2.a30 as i128)) / (SCALE as i128)) as i64,
            a01: (((m1.a00 as i128) * (m2.a01 as i128) + (m1.a01 as i128) * (m2.a11 as i128) + (m1.a02 as i128) * (m2.a21 as i128) + (m1.a03 as i128) * (m2.a31 as i128)) / (SCALE as i128)) as i64,
            a02: (((m1.a00 as i128) * (m2.a02 as i128) + (m1.a01 as i128) * (m2.a12 as i128) + (m1.a02 as i128) * (m2.a22 as i128) + (m1.a03 as i128) * (m2.a32 as i128)) / (SCALE as i128)) as i64,
            a03: (((m1.a00 as i128) * (m2.a03 as i128) + (m1.a01 as i128) * (m2.a13 as i128) + (m1.a02 as i128) * (m2.a23 as i128) + (m1.a03 as i128) * (m2.a33 as i128)) / (SCALE as i128)) as i64,
            a10: (((m1.a10 as i128) * (m2.a00 as i128) + (m1.a11 as i128) * (m2.a10 as i128) + (m1.a12 as i128) * (m2.a20 as i128) + (m1.a13 as i128) * (m2.a30 as i128)) / (SCALE as i128)) as i64,
            a11: (((m1.a10 as i128) * (m2.a01 as i128) + (m1.a11 as i128) * (m2.a11 as i128) + (m1.a12 as i128) * (m2.a21 as i128) + (m1.a13 as i128) * (m2.a31 as i128)) / (SCALE as i128)) as i64,
            a12: (((m1.a10 as i128) * (m2.a02 as i128) + (m1.a11 as i128) * (m2.a12 as i128) + (m1.a12 as i128) * (m2.a22 as i128) + (m1.a13 as i128) * (m2.a32 as i128)) / (SCALE as i128)) as i64,
            a13: (((m1.a10 as i128) * (m2.a03 as i128) + (m1.a11 as i128) * (m2.a13 as i128) + (m1.a12 as i128) * (m2.a23 as i128) + (m1.a13 as i128) * (m2.a33 as i128)) / (SCALE as i128)) as i64,
            a20: (((m1.a20 as i128) * (m2.a00 as i128) + (m1.a21 as i128) * (m2.a10 as i128) + (m1.a22 as i128) * (m2.a20 as i128) + (m1.a23 as i128) * (m2.a30 as i128)) / (SCALE as i128)) as i64,
            a21: (((m1.a20 as i128) * (m2.a01 as i128) + (m1.a21 as i128) * (m2.a11 as i128) + (m1.a22 as i128) * (m2.a21 as i128) + (m1.a23 as i128) * (m2.a31 as i128)) / (SCALE as i128)) as i64,
            a22: (((m1.a20 as i128) * (m2.a02 as i128) + (m1.a21 as i128) * (m2.a12 as i128) + (m1.a22 as i128) * (m2.a22 as i128) + (m1.a23 as i128) * (m2.a32 as i128)) / (SCALE as i128)) as i64,
            a23: (((m1.a20 as i128) * (m2.a03 as i128) + (m1.a21 as i128) * (m2.a13 as i128) + (m1.a22 as i128) * (m2.a23 as i128) + (m1.a23 as i128) * (m2.a33 as i128)) / (SCALE as i128)) as i64,
            a30: (((m1.a30 as i128) * (m2.a00 as i128) + (m1.a31 as i128) * (m2.a10 as i128) + (m1.a32 as i128) * (m2.a20 as i128) + (m1.a33 as i128) * (m2.a30 as i128)) / (SCALE as i128)) as i64,
            a31: (((m1.a30 as i128) * (m2.a01 as i128) + (m1.a31 as i128) * (m2.a11 as i128) + (m1.a32 as i128) * (m2.a21 as i128) + (m1.a33 as i128) * (m2.a31 as i128)) / (SCALE as i128)) as i64,
            a32: (((m1.a30 as i128) * (m2.a02 as i128) + (m1.a31 as i128) * (m2.a12 as i128) + (m1.a32 as i128) * (m2.a22 as i128) + (m1.a33 as i128) * (m2.a32 as i128)) / (SCALE as i128)) as i64,
            a33: (((m1.a30 as i128) * (m2.a03 as i128) + (m1.a31 as i128) * (m2.a13 as i128) + (m1.a32 as i128) * (m2.a23 as i128) + (m1.a33 as i128) * (m2.a33 as i128)) / (SCALE as i128)) as i64,
        }
    }
}

} // verus!
