//! Ray-triangle intersection by the barycentric method.

use vstd::prelude::*;
use crate::fx::{SCALE, fx_mul_s, tdiv, fx_sqrt, tdiv_i128, lemma_abs_mul,
    lemma_fx_mul_bound};
use crate::vec3::{Vec3, v_in, dot_s, len_s, len_sq_s, norm_s, neg_s, cross_s, NORM_LIMIT};
use crate::point3::{Point3, p_in, sub_pp_s};
use crate::ray::{Ray, ray_in, COORD_LIMIT, RAY_LIMIT, T_LIMIT};

verus! {

/// A triangle given by its three corners.
#[derive(Clone, Copy, Debug, PartialEq, Eq, Structural)]
pub struct Triangle {
    pub p0: Point3,
    pub p1: Point3,
    pub p2: Point3,
}

/// A triangle whose corners lie within the representable scene volume.
pub open spec fn triangle_wf(t: Triangle) -> bool {
    p_in(t.p0, COORD_LIMIT as int) && p_in(t.p1, COORD_LIMIT as int)
        && p_in(t.p2, COORD_LIMIT as int)
}

/// The value `triangle.intersect` computes: the barycentric coordinates of
/// the ray's plane crossing, tested against the triangle, or nothing. A ray
/// parallel to the plane, or a triangle degenerate at this resolution,
/// yields no hit. The returned normal is flipped to oppose the incoming
/// ray direction.
pub open spec fn triangle_hit_s(tr: Triangle, ray: Ray) -> Option<(i64, Point3, Vec3)> {
    let s = SCALE as int;
    let vp = sub_pp_s(ray.p, tr.p0);
    let v1 = sub_pp_s(tr.p1, tr.p0);
    let v2 = sub_pp_s(tr.p2, tr.p0);
    let v_tmpd = cross_s(ray.d, v2);
    let v_tmpp = cross_s(vp, v1);
    let den = dot_s(v_tmpd, v1);
    if den == 0 {
        None
    } else {
        let u = tdiv(dot_s(v_tmpd, vp) * s, den);
        if u < 0 || u > s {
            None
        } else {
            let v = tdiv(dot_s(v_tmpp, ray.d) * s, den);
            if v < 0 || v > s {
                None
            } else if u + v < 0 || u + v > s {
                None
            } else {
                let t = tdiv(dot_s(v_tmpp, v2) * s, den);
                if t < 0 || t > T_LIMIT {
                    None
                } else {
                    let pi = Point3 {
                        x: (ray.p.x + fx_mul_s(ray.d.x as int, t)) as i64,
                        y: (ray.p.y + fx_mul_s(ray.d.y as int, t)) as i64,
                        z: (ray.p.z + fx_mul_s(ray.d.z as int, t)) as i64,
                    };
                    let nc = cross_s(v1, v2);
                    if len_s(nc) == 0 {
                        None
                    } else {
                        let n0 = norm_s(nc);
                        let n = if dot_s(neg_s(ray.d), n0) < 0 {
                            neg_s(n0)
                        } else {
                            n0
                        };
                        Some((t as i64, pi, n))
                    }
                }
            }
        }
    }
}

impl Triangle {
    /// Intersect a ray with the triangle: cross the direction with the
    /// edges, compute the two barycentric weights, and reject crossings
    /// outside the triangle or behind the origin.
    pub fn intersect(&self, ray: &Ray) -> (res: Option<(i64, Point3, Vec3)>)
        requires
            triangle_wf(*self),
            ray_in(*ray, RAY_LIMIT as int),
        ensures
            res == triangle_hit_s(*self, *ray),
            match res {
                Some((t, pi, n)) => 0 <= t <= T_LIMIT && v_in(n, NORM_LIMIT as int)
                    && dot_s(n, n) <= i64::MAX && len_s(n) >= 1
                    && len_sq_s(n) >= SCALE - 1542,
                None => true,
            },
    {
        let s_i128: i128 = SCALE as i128;
        let vp = ray.p.sub(self.p0);
        let v1 = self.p1.sub(self.p0);
        let v2 = self.p2.sub(self.p0);
        proof {
            crate::vec3::lemma_cross_bound(ray.d, v2, RAY_LIMIT as int, 33554432int);
            assert(2 * (RAY_LIMIT as int) * 33554432int == 2305843009213693952int)
                by (nonlinear_arith)
                requires
                    RAY_LIMIT == 0x8_0000_0000,
            ;
            crate::vec3::lemma_cross_bound(vp, v1, 34376515584int, 33554432int);
            assert(2 * 34376515584int * 33554432int == 2306968909120536576int)
                by (nonlinear_arith);
        }
        let v_tmpd = Vec3::cross(ray.d, v2);
        let v_tmpp = Vec3::cross(vp, v1);
        proof {
            crate::vec3::lemma_dot_bound(v_tmpd, v1, 35184372088832int, 33554432int);
            assert(3 * 35184372088832int * 33554432int == 3541774862152233910272int)
                by (nonlinear_arith);
            crate::vec3::lemma_dot_bound(v_tmpd, vp, 35184372088832int, 34376515584int);
            assert(3 * 35184372088832int * 34376515584int == 3628548346274963641073664int)
                by (nonlinear_arith);
            crate::vec3::lemma_dot_bound(v_tmpp, ray.d, 35201551958016int, RAY_LIMIT as int);
            assert(3 * 35201551958016int * (RAY_LIMIT as int) == 3628548346274963641073664int)
                by (nonlinear_arith)
                requires
                    RAY_LIMIT == 0x8_0000_0000,
            ;
            crate::vec3::lemma_dot_bound(v_tmpp, v2, 35201551958016int, 33554432int);
            assert(3 * 35201551958016int * 33554432int == 3543504244409144180736int)
                by (nonlinear_arith);
        }
        let den = Vec3::dot(v_tmpd, v1);
        if den == 0 {
            return None;
        }
        let den_i128: i128 = den as i128;
        let u_num: i128 = Vec3::dot_wide(v_tmpd, vp);
        proof {
            lemma_abs_mul(u_num as int, SCALE as int, 55367253818892877824int, SCALE as int);
            assert(55367253818892877824int * (SCALE as int) == 3628548346274963641073664int)
                by (nonlinear_arith)
                requires
                    SCALE == 65536,
            ;
        }
        let u: i128 = tdiv_i128(u_num * s_i128, den_i128);
        if u < 0 || u > s_i128 {
            return None;
        }
        let v_num: i128 = Vec3::dot_wide(v_tmpp, ray.d);
        proof {
            lemma_abs_mul(v_num as int, SCALE as int, 55367253818892877824int, SCALE as int);
            assert(55367253818892877824int * (SCALE as int) == 3628548346274963641073664int)
                by (nonlinear_arith)
                requires
                    SCALE == 65536,
            ;
        }
        let v: i128 = tdiv_i128(v_num * s_i128, den_i128);
        if v < 0 || v > s_i128 {
            return None;
        }
        if u + v < 0 || u + v > s_i128 {
            return None;
        }
        let t_num: i128 = Vec3::dot_wide(v_tmpp, v2);
        proof {
            lemma_abs_mul(t_num as int, SCALE as int, 54069583807512576int, SCALE as int);
            assert(54069583807512576int * (SCALE as int) == 3543504244409144180736int)
                by (nonlinear_arith)
                requires
                    SCALE == 65536,
            ;
        }
        let t: i128 = tdiv_i128(t_num * s_i128, den_i128);
        if t < 0 || t > (T_LIMIT as i128) {
            return None;
        }
        let t64: i64 = t as i64;
        proof {
            lemma_fx_mul_bound(ray.d.x as int, t64 as int, RAY_LIMIT as int, T_LIMIT as int);
            lemma_fx_mul_bound(ray.d.y as int, t64 as int, RAY_LIMIT as int, T_LIMIT as int);
            lemma_fx_mul_bound(ray.d.z as int, t64 as int, RAY_LIMIT as int, T_LIMIT as int);
            assert((RAY_LIMIT as int) * (T_LIMIT as int) == 2305843009213693952int)
                by (nonlinear_arith)
                requires
                    RAY_LIMIT == 0x8_0000_0000,
                    T_LIMIT == 0x400_0000,
            ;
        }
        let step = ray.d.mul(t64);
        let pi = ray.p.add_vec(step);
        proof {
            crate::vec3::lemma_cross_bound(v1, v2, 33554432int, 33554432int);
            assert(2 * 33554432int * 33554432int == 2251799813685248int) by (nonlinear_arith);
            crate::vec3::lemma_dot_bound(
                Vec3 {
                    x: crate::vec3::cross_x_s(v1, v2) as i64,
                    y: crate::vec3::cross_y_s(v1, v2) as i64,
                    z: crate::vec3::cross_z_s(v1, v2) as i64,
                },
                Vec3 {
                    x: crate::vec3::cross_x_s(v1, v2) as i64,
                    y: crate::vec3::cross_y_s(v1, v2) as i64,
                    z: crate::vec3::cross_z_s(v1, v2) as i64,
                },
                34359738368int,
                34359738368int,
            );
            assert(3 * 34359738368int * 34359738368int == 3541774862152233910272int)
                by (nonlinear_arith);
        }
        let nc = Vec3::cross(v1, v2);
        let ncls = nc.len_sq();
        let ncl = fx_sqrt(ncls);
        if ncl == 0 {
            return None;
        }
        proof {
            crate::vec3::lemma_norm_usable(nc);
        }
        let n0 = Vec3::normalize(nc);
        let dneg = ray.d.neg();
        proof {
            crate::vec3::lemma_dot_bound(dneg, n0, RAY_LIMIT as int, NORM_LIMIT as int);
            assert(3 * (RAY_LIMIT as int) * (NORM_LIMIT as int) == 1736137656351326208int)
                by (nonlinear_arith)
                requires
                    RAY_LIMIT == 0x8_0000_0000,
                    NORM_LIMIT == 16842752,
            ;
        }
        let flip = Vec3::dot(dneg, n0);
        let n = if flip < 0 {
            proof {
                lemma_neg_keeps_norm_facts(n0);
            }
            n0.neg()
        } else {
            n0
        };
        Some((t64, pi, n))
    }
}

/// Negating a vector preserves its inner product with itself, and hence its
/// lengths.
proof fn lemma_neg_keeps_norm_facts(n: Vec3)
    requires
        v_in(n, NORM_LIMIT as int),
    ensures
        dot_s(neg_s(n), neg_s(n)) == dot_s(n, n),
        len_s(neg_s(n)) == len_s(n),
        len_sq_s(neg_s(n)) == len_sq_s(n),
        v_in(neg_s(n), NORM_LIMIT as int),
{
    let m = neg_s(n);
    assert(m.x == -n.x && m.y == -n.y && m.z == -n.z);
    assert((-(n.x as int)) * (-(n.x as int)) == (n.x as int) * (n.x as int))
        by (nonlinear_arith);
    assert((-(n.y as int)) * (-(n.y as int)) == (n.y as int) * (n.y as int))
        by (nonlinear_arith);
    assert((-(n.z as int)) * (-(n.z as int)) == (n.z as int) * (n.z as int))
        by (nonlinear_arith);
    assert(crate::vec3::dot_i(m, m) == crate::vec3::dot_i(n, n));
}

} // verus!
