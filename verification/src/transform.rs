//! Affine transforms: a 4x4 matrix applied as a full affine map to points
//! and as its linear part to vectors.

use vstd::prelude::*;
use crate::fx::{SCALE, fx_mul_s, tdiv, fx_mul, lemma_abs_mul, lemma_tdiv_bound,
    lemma_tdiv_mul_exact, lemma_fx_mul_bound};
use crate::vec3::{Vec3, v_in, norm_s, neg_s, NORM_LIMIT, dot_s, len_s};
use crate::point3::{Point3, p_in};
use crate::mat4::{Mat4, m_in, mat_mul_s, MAT_LIMIT};
use crate::trig::{sin_deg_s, cos_deg_s, sin_deg, cos_deg};

verus! {

/// An affine transform, wrapping its matrix.
#[derive(Clone, Copy, Debug, PartialEq, Eq, Structural)]
pub struct Transform {
    pub mat: Mat4,
}

/// The translation matrix with displacement `d` in the last column.
pub open spec fn translate_s(dx: i64, dy: i64, dz: i64) -> Mat4 {
    Mat4 {
        a00: SCALE, a01: 0i64, a02: 0i64, a03: dx,
        a10: 0i64, a11: SCALE, a12: 0i64, a13: dy,
        a20: 0i64, a21: 0i64, a22: SCALE, a23: dz,
        a30: 0i64, a31: 0i64, a32: 0i64, a33: SCALE,
    }
}

/// A diagonal entry of the rotation matrix: `u^2 + (1 - u^2) cos`.
pub open spec fn rot_diag_s(u: int, cs: int) -> int {
    fx_mul_s(u, u) + fx_mul_s((SCALE as int) - fx_mul_s(u, u), cs)
}

/// An off-diagonal entry of the rotation matrix with a positive sine term:
/// `u v (1 - cos) + w sin`.
pub open spec fn rot_plus_s(u: int, v: int, w: int, sn: int, cs: int) -> int {
    fx_mul_s(fx_mul_s(u, v), (SCALE as int) - cs) + fx_mul_s(w, sn)
}

/// An off-diagonal entry of the rotation matrix with a negative sine term:
/// `u v (1 - cos) - w sin`.
pub open spec fn rot_minus_s(u: int, v: int, w: int, sn: int, cs: int) -> int {
    fx_mul_s(fx_mul_s(u, v), (SCALE as int) - cs) - fx_mul_s(w, sn)
}

/// The rotation matrix about the normalized `axis` by `theta` fixed-point
/// degrees.
pub open spec fn rotate_s(theta: int, axis: Vec3) -> Mat4 {
    let a = norm_s(axis);
    let sn = sin_deg_s(theta);
    let cs = cos_deg_s(theta);
    let ax = a.x as int;
    let ay = a.y as int;
    let az = a.z as int;
    Mat4 {
        a00: rot_diag_s(ax, cs) as i64,
        a01: rot_minus_s(ax, ay, az, sn, cs) as i64,
        a02: rot_plus_s(ax, az, ay, sn, cs) as i64,
        a03: 0i64,
        a10: rot_plus_s(ax, ay, az, sn, cs) as i64,
        a11: rot_diag_s(ay, cs) as i64,
        a12: rot_minus_s(ay, az, ax, sn, cs) as i64,
        a13: 0i64,
        a20: rot_minus_s(ax, az, ay, sn, cs) as i64,
        a21: rot_plus_s(ay, az, ax, sn, cs) as i64,
        a22: rot_diag_s(az, cs) as i64,
        a23: 0i64,
        a30: 0i64,
        a31: 0i64,
        a32: 0i64,
        a33: SCALE,
    }
}

/// The scaled inner product of a matrix row's linear part with a triple.
pub open spec fn dot3_s(x0: int, x1: int, x2: int, y0: int, y1: int, y2: int) -> int {
    tdiv(x0 * y0 + x1 * y1 + x2 * y2, SCALE as int)
}

/// The linear part of the transform applied to a vector.
pub open spec fn apply_vec_s(m: Mat4, v: Vec3) -> Vec3 {
    Vec3 {
        x: dot3_s(m.a00 as int, m.a01 as int, m.a02 as int, v.x as int, v.y as int, v.z as int)
            as i64,
        y: dot3_s(m.a10 as int, m.a11 as int, m.a12 as int, v.x as int, v.y as int, v.z as int)
            as i64,
        z: dot3_s(m.a20 as int, m.a21 as int, m.a22 as int, v.x as int, v.y as int, v.z as int)
            as i64,
    }
}

/// The full affine transform applied to a point: the linear part plus the
/// translation column.
pub open spec fn apply_pt_s(m: Mat4, p: Point3) -> Point3 {
    Point3 {
        x: (dot3_s(m.a00 as int, m.a01 as int, m.a02 as int, p.x as int, p.y as int, p.z as int)
            + m.a03) as i64,
        y: (dot3_s(m.a10 as int, m.a11 as int, m.a12 as int, p.x as int, p.y as int, p.z as int)
            + m.a13) as i64,
        z: (dot3_s(m.a20 as int, m.a21 as int, m.a22 as int, p.x as int, p.y as int, p.z as int)
            + m.a23) as i64,
    }
}

/// A row-triple product of entries bounded by `MAT_LIMIT` is representable
/// and bounded.
proof fn lemma_dot3_bound(x0: int, x1: int, x2: int, y0: int, y1: int, y2: int)
    requires
        -(MAT_LIMIT as int) <= x0 <= MAT_LIMIT as int,
        -(MAT_LIMIT as int) <= x1 <= MAT_LIMIT as int,
        -(MAT_LIMIT as int) <= x2 <= MAT_LIMIT as int,
        -(MAT_LIMIT as int) <= y0 <= MAT_LIMIT as int,
        -(MAT_LIMIT as int) <= y1 <= MAT_LIMIT as int,
        -(MAT_LIMIT as int) <= y2 <= MAT_LIMIT as int,
    ensures
        -0x3000_0000_0000_0000 <= dot3_s(x0, x1, x2, y0, y1, y2) <= 0x3000_0000_0000_0000,
        -0x1000_0000_0000_0000_0000 <= x0 * y0 <= 0x1000_0000_0000_0000_0000,
        -0x1000_0000_0000_0000_0000 <= x1 * y1 <= 0x1000_0000_0000_0000_0000,
        -0x1000_0000_0000_0000_0000 <= x2 * y2 <= 0x1000_0000_0000_0000_0000,
{
    let k = MAT_LIMIT as int;
    assert(k * k == 0x1000_0000_0000_0000_0000) by (nonlinear_arith)
        requires
            k == 0x40_0000_0000,
    ;
    lemma_abs_mul(x0, y0, k, k);
    lemma_abs_mul(x1, y1, k, k);
    lemma_abs_mul(x2, y2, k, k);
    lemma_tdiv_bound(x0 * y0 + x1 * y1 + x2 * y2, 3 * (k * k), SCALE as int);
    assert((3 * (k * k)) / (SCALE as int) == 0x3000_0000_0000_0000) by (nonlinear_arith)
        requires
            k == 0x40_0000_0000,
            SCALE == 65536,
    ;
}

/// Every rotation-matrix entry built from a normalized axis and unit-range
/// sine and cosine is representable and bounded by `MAT_LIMIT`.
proof fn lemma_rot_entry_bounds(u: int, v: int, w: int, sn: int, cs: int)
    requires
        -(NORM_LIMIT as int) <= u <= NORM_LIMIT as int,
        -(NORM_LIMIT as int) <= v <= NORM_LIMIT as int,
        -(NORM_LIMIT as int) <= w <= NORM_LIMIT as int,
        -(SCALE as int) <= sn <= SCALE as int,
        -(SCALE as int) <= cs <= SCALE as int,
    ensures
        -4328587264 <= fx_mul_s(u, u) <= 4328587264,
        -4328587264 <= fx_mul_s(u, v) <= 4328587264,
        -8657240064 <= fx_mul_s((SCALE as int) - fx_mul_s(u, u), cs) <= 8657240064,
        -8657240064 <= fx_mul_s(fx_mul_s(u, v), (SCALE as int) - cs) <= 8657240064,
        -(NORM_LIMIT as int) <= fx_mul_s(w, sn) <= NORM_LIMIT as int,
        -(MAT_LIMIT as int) <= rot_diag_s(u, cs) <= MAT_LIMIT as int,
        -(MAT_LIMIT as int) <= rot_plus_s(u, v, w, sn, cs) <= MAT_LIMIT as int,
        -(MAT_LIMIT as int) <= rot_minus_s(u, v, w, sn, cs) <= MAT_LIMIT as int,
{
    let s = SCALE as int;
    let n = NORM_LIMIT as int;
    lemma_fx_mul_bound(u, u, n, n);
    lemma_fx_mul_bound(u, v, n, n);
    assert((n * n) / s == 4328587264) by (nonlinear_arith)
        requires
            n == 16842752,
            s == 65536,
    ;
    lemma_fx_mul_bound(s - fx_mul_s(u, u), cs, 4328587264 + s, s);
    assert(((4328587264 + s) * s) / s == 4328587264 + s) by (nonlinear_arith)
        requires
            s == 65536,
    ;
    lemma_fx_mul_bound(fx_mul_s(u, v), s - cs, 4328587264, 2 * s);
    assert((4328587264 * (2 * s)) / s == 8657174528) by (nonlinear_arith)
        requires
            s == 65536,
    ;
    lemma_fx_mul_bound(w, sn, n, s);
    assert((n * s) / s == n) by (nonlinear_arith)
        requires
            n == 16842752,
            s == 65536,
    ;
}

impl Transform {
    /// The identity transform.
    pub fn identity() -> (r: Transform)
        ensures
            r.mat == translate_s(0i64, 0i64, 0i64),
            m_in(r.mat, MAT_LIMIT as int),
    {
        Transform {
            mat: Mat4::new(
                SCALE, 0, 0, 0,
                0, SCALE, 0, 0,
                0, 0, SCALE, 0,
                0, 0, 0, SCALE,
            ),
        }
    }

    /// Translation by a displacement vector.
    pub fn translate(delta: Vec3) -> (r: Transform)
        requires
            v_in(delta, MAT_LIMIT as int),
        ensures
            r.mat == translate_s(delta.x, delta.y, delta.z),
            m_in(r.mat, MAT_LIMIT as int),
    {
        Transform {
            mat: Mat4::new(
                SCALE, 0, 0, delta.x,
                0, SCALE, 0, delta.y,
                0, 0, SCALE, delta.z,
                0, 0, 0, SCALE,
            ),
        }
    }

    /// Translation to a point's position.
    pub fn translate_pt(pt: Point3) -> (r: Transform)
        requires
            p_in(pt, MAT_LIMIT as int),
        ensures
            r.mat == translate_s(pt.x, pt.y, pt.z),
            m_in(r.mat, MAT_LIMIT as int),
    {
        Transform {
            mat: Mat4::new(
                SCALE, 0, 0, pt.x,
                0, SCALE, 0, pt.y,
                0, 0, SCALE, pt.z,
                0, 0, 0, SCALE,
            ),
        }
    }

    /// Rotation about `axis` by `theta` fixed-point degrees, by the
    /// Rodrigues matrix. The axis must have nonzero fixed-point length.
    pub fn rotate(theta: i64, axis: Vec3) -> (r: Transform)
        requires
            v_in(axis, crate::vec3::FX_LIMIT as int),
            dot_s(axis, axis) <= i64::MAX,
            len_s(axis) != 0,
        ensures
            r.mat == rotate_s(theta as int, axis),
            m_in(r.mat, MAT_LIMIT as int),
    {
        let a = Vec3::normalize(axis);
        let sin_theta = sin_deg(theta);
        let cos_theta = cos_deg(theta);
        proof {
            lemma_rot_entry_bounds(a.x as int, a.y as int, a.z as int, sin_theta as int,
                cos_theta as int);
            lemma_rot_entry_bounds(a.y as int, a.z as int, a.x as int, sin_theta as int,
                cos_theta as int);
            lemma_rot_entry_bounds(a.z as int, a.x as int, a.y as int, sin_theta as int,
                cos_theta as int);
            lemma_rot_entry_bounds(a.x as int, a.z as int, a.y as int, sin_theta as int,
                cos_theta as int);
        }
        let uu = fx_mul(a.x, a.x);
        let vv = fx_mul(a.y, a.y);
        let ww = fx_mul(a.z, a.z);
        let a00 = uu + fx_mul(SCALE - uu, cos_theta);
        let a11 = vv + fx_mul(SCALE - vv, cos_theta);
        let a22 = ww + fx_mul(SCALE - ww, cos_theta);
        let a01 = fx_mul(fx_mul(a.x, a.y), SCALE - cos_theta) - fx_mul(a.z, sin_theta);
        let a10 = fx_mul(fx_mul(a.x, a.y), SCALE - cos_theta) + fx_mul(a.z, sin_theta);
        let a02 = fx_mul(fx_mul(a.x, a.z), SCALE - cos_theta) + fx_mul(a.y, sin_theta);
        let a20 = fx_mul(fx_mul(a.x, a.z), SCALE - cos_theta) - fx_mul(a.y, sin_theta);
        let a12 = fx_mul(fx_mul(a.y, a.z), SCALE - cos_theta) - fx_mul(a.x, sin_theta);
        let a21 = fx_mul(fx_mul(a.y, a.z), SCALE - cos_theta) + fx_mul(a.x, sin_theta);
        Transform {
            mat: Mat4::new(
                a00, a01, a02, 0,
                a10, a11, a12, 0,
                a20, a21, a22, 0,
                0, 0, 0, SCALE,
            ),
        }
    }

    /// Compose this transform with another; the composed matrix applies
    /// `other` first and then `self`.
    pub fn compose(&self, other: &Transform) -> (r: Transform)
        requires
            m_in(self.mat, MAT_LIMIT as int),
            m_in(other.mat, MAT_LIMIT as int),
        ensures
            r.mat == mat_mul_s(self.mat, other.mat),
            m_in(r.mat, 0x4000_0000_0000_0000),
    {
        Transform { mat: Mat4::multiply(&self.mat, &other.mat) }
    }

    /// Apply only the linear 3x3 block, the correct map for directions.
    pub fn apply_vec(&self, v: &Vec3) -> (r: Vec3)
        requires
            m_in(self.mat, MAT_LIMIT as int),
            v_in(*v, MAT_LIMIT as int),
        ensures
            r == apply_vec_s(self.mat, *v),
    {
        proof {
            let m = self.mat;
            lemma_dot3_bound(m.a00 as int, m.a01 as int, m.a02 as int, v.x as int, v.y as int,
                v.z as int);
            lemma_dot3_bound(m.a10 as int, m.a11 as int, m.a12 as int, v.x as int, v.y as int,
                v.z as int);
            lemma_dot3_bound(m.a20 as int, m.a21 as int, m.a22 as int, v.x as int, v.y as int,
                v.z as int);
        }
        let m = &self.mat;
        let x: i128 = ((m.a00 as i128) * (v.x as i128) + (m.a01 as i128) * (v.y as i128)
            + (m.a02 as i128) * (v.z as i128)) / (SCALE as i128);
        let y: i128 = ((m.a10 as i128) * (v.x as i128) + (m.a11 as i128) * (v.y as i128)
            + (m.a12 as i128) * (v.z as i128)) / (SCALE as i128);
        let z: i128 = ((m.a20 as i128) * (v.x as i128) + (m.a21 as i128) * (v.y as i128)
            + (m.a22 as i128) * (v.z as i128)) / (SCALE as i128);
        Vec3 { x: x as i64, y: y as i64, z: z as i64 }
    }

    /// Apply the full affine map, translation included, the correct map for
    /// positions.
    pub fn apply_pt(&self, p: &Point3) -> (r: Point3)
        requires
            m_in(self.mat, MAT_LIMIT as int),
            p_in(*p, MAT_LIMIT as int),
        ensures
            r == apply_pt_s(self.mat, *p),
    {
        proof {
            let m = self.mat;
            lemma_dot3_bound(m.a00 as int, m.a01 as int, m.a02 as int, p.x as int, p.y as int,
                p.z as int);
            lemma_dot3_bound(m.a10 as int, m.a11 as int, m.a12 as int, p.x as int, p.y as int,
                p.z as int);
            lemma_dot3_bound(m.a20 as int, m.a21 as int, m.a22 as int, p.x as int, p.y as int,
                p.z as int);
        }
        let m = &self.mat;
        let x: i128 = ((m.a00 as i128) * (p.x as i128) + (m.a01 as i128) * (p.y as i128)
            + (m.a02 as i128) * (p.z as i128)) / (SCALE as i128);
        let y: i128 = ((m.a10 as i128) * (p.x as i128) + (m.a11 as i128) * (p.y as i128)
            + (m.a12 as i128) * (p.z as i128)) / (SCALE as i128);
        let z: i128 = ((m.a20 as i128) * (p.x as i128) + (m.a21 as i128) * (p.y as i128)
            + (m.a22 as i128) * (p.z as i128)) / (SCALE as i128);
        Point3 { x: (x as i64) + m.a03, y: (y as i64) + m.a13, z: (z as i64) + m.a23 }
    }
}

/// Translating by a displacement and then by its negation composes to the
/// exact identity on points: the round trip returns every point unchanged.
pub proof fn lemma_translate_round_trip(d: Vec3, p: Point3)
    requires
        d.x > i64::MIN,
        d.y > i64::MIN,
        d.z > i64::MIN,
    ensures
        apply_pt_s(
            mat_mul_s(translate_s(d.x, d.y, d.z), translate_s(neg_s(d).x, neg_s(d).y, neg_s(d).z)),
            p,
        ) == p,
{
    let s = SCALE as int;
    let m1 = translate_s(d.x, d.y, d.z);
    let nd = neg_s(d);
    let m2 = translate_s(nd.x, nd.y, nd.z);
    let m = mat_mul_s(m1, m2);
    assert(nd.x == -d.x && nd.y == -d.y && nd.z == -d.z);
    // Give the solver every product shape that occurs in the sixteen cells:
    // the products with a zero factor, the squared scale on the diagonal,
    // and the cancelling pair in the translation column.
    vstd::arithmetic::mul::lemma_mul_by_zero_is_zero(0);
    vstd::arithmetic::mul::lemma_mul_by_zero_is_zero(s);
    vstd::arithmetic::mul::lemma_mul_by_zero_is_zero(d.x as int);
    vstd::arithmetic::mul::lemma_mul_by_zero_is_zero(d.y as int);
    vstd::arithmetic::mul::lemma_mul_by_zero_is_zero(d.z as int);
    vstd::arithmetic::mul::lemma_mul_by_zero_is_zero(nd.x as int);
    vstd::arithmetic::mul::lemma_mul_by_zero_is_zero(nd.y as int);
    vstd::arithmetic::mul::lemma_mul_by_zero_is_zero(nd.z as int);
    assert(s * s == 4294967296) by (nonlinear_arith)
        requires
            s == 65536,
    ;
    assert(s * (nd.x as int) + (d.x as int) * s == 0) by (nonlinear_arith)
        requires
            nd.x == -d.x,
    ;
    assert(s * (nd.y as int) + (d.y as int) * s == 0) by (nonlinear_arith)
        requires
            nd.y == -d.y,
    ;
    assert(s * (nd.z as int) + (d.z as int) * s == 0) by (nonlinear_arith)
        requires
            nd.z == -d.z,
    ;
    vstd::arithmetic::div_mod::lemma_div_of0(s);
    assert(tdiv(4294967296, s) == 65536);
    assert(m.a00 == SCALE && m.a11 == SCALE && m.a22 == SCALE && m.a33 == SCALE);
    assert(m.a01 == 0 && m.a02 == 0 && m.a10 == 0 && m.a12 == 0 && m.a20 == 0 && m.a21 == 0);
    assert(m.a30 == 0 && m.a31 == 0 && m.a32 == 0);
    assert(m.a03 == 0 && m.a13 == 0 && m.a23 == 0);
    // Applying the resulting identity matrix leaves the point unchanged.
    vstd::arithmetic::mul::lemma_mul_by_zero_is_zero(p.x as int);
    vstd::arithmetic::mul::lemma_mul_by_zero_is_zero(p.y as int);
    vstd::arithmetic::mul::lemma_mul_by_zero_is_zero(p.z as int);
    lemma_tdiv_mul_exact(p.x as int, s);
    lemma_tdiv_mul_exact(p.y as int, s);
    lemma_tdiv_mul_exact(p.z as int, s);
    assert(s * (p.x as int) == (p.x as int) * s) by (nonlinear_arith);
    assert(s * (p.y as int) == (p.y as int) * s) by (nonlinear_arith);
    assert(s * (p.z as int) == (p.z as int) * s) by (nonlinear_arith);
    assert(apply_pt_s(m, p).x == p.x);
    assert(apply_pt_s(m, p).y == p.y);
    assert(apply_pt_s(m, p).z == p.z);
}

} // verus!
