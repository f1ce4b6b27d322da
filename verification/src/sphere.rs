//! Ray-sphere intersection by quadratic root selection.

use vstd::prelude::*;
use crate::fx::{SCALE, fx_mul_s, fx_sqrt_s, tdiv, fx_mul, fx_sqrt, fx_sqrt_wide,
    lemma_abs_mul, lemma_tdiv_bound, lemma_fx_mul_bound, lemma_fx_sqrt_lt};
use crate::vec3::{Vec3, v_in, dot_s, len_s, len_sq_s, norm_s};
use crate::point3::{Point3, p_in, sub_pp_s};
use crate::ray::{Ray, ray_in, COORD_LIMIT, RAY_LIMIT, T_LIMIT};

verus! {

/// A sphere given by its center and radius; the radius is positive.
#[derive(Clone, Copy, Debug, PartialEq, Eq, Structural)]
pub struct Sphere {
    pub c: Point3,
    pub r: i64,
}

/// A sphere whose geometry lies within the representable scene volume.
pub open spec fn sphere_wf(s: Sphere) -> bool {
    p_in(s.c, COORD_LIMIT as int) && 0 < s.r <= COORD_LIMIT
}

/// The value `sphere.intersect` computes: the nearest forward hit of the
/// ray against the sphere, or nothing. The ray direction is normalized
/// first, so the parameter measures distance in world units. A direction
/// of zero fixed-point length, a parameter outside the representable
/// range, and a hit point that rounds onto the center all yield no hit.
pub open spec fn sphere_hit_s(sp: Sphere, ray: Ray) -> Option<(i64, Point3, Vec3)> {
    let s = SCALE as int;
    if len_s(ray.d) == 0 {
        None
    } else {
        let d = norm_s(ray.d);
        let v = sub_pp_s(ray.p, sp.c);
        let a = dot_s(d, d);
        let b = 2 * dot_s(d, v);
        let c = dot_s(v, v) - fx_mul_s(sp.r as int, sp.r as int);
        let discrm = tdiv(b * b, s) - tdiv((4 * a) * c, s);
        if discrm < 0 {
            None
        } else {
            let t = if discrm > 0 {
                let sq = fx_sqrt_s(discrm);
                let t1 = tdiv((-b + sq) * s, 2 * a);
                let t2 = tdiv((-b - sq) * s, 2 * a);
                if t1 < t2 {
                    t1
                } else {
                    t2
                }
            } else {
                tdiv((-b) * s, 2 * a)
            };
            if t < 0 || t > T_LIMIT {
                None
            } else {
                let pi = Point3 {
                    x: (ray.p.x + fx_mul_s(d.x as int, t)) as i64,
                    y: (ray.p.y + fx_mul_s(d.y as int, t)) as i64,
                    z: (ray.p.z + fx_mul_s(d.z as int, t)) as i64,
                };
                let w = sub_pp_s(pi, sp.c);
                if len_s(w) == 0 {
                    None
                } else {
                    Some((t as i64, pi, norm_s(w)))
                }
            }
        }
    }
}

impl Sphere {
    /// Intersect a ray with the sphere: normalize the direction, solve the
    /// quadratic, select the smaller root, and reject backward or
    /// out-of-range parameters. The returned normal points outward from the
    /// center.
    pub fn intersect(&self, ray: &Ray) -> (res: Option<(i64, Point3, Vec3)>)
        requires
            sphere_wf(*self),
            ray_in(*ray, RAY_LIMIT as int),
        ensures
            res == sphere_hit_s(*self, *ray),
            match res {
                Some((t, pi, n)) => 0 <= t <= T_LIMIT && v_in(n, crate::vec3::NORM_LIMIT as int)
                    && dot_s(n, n) <= i64::MAX && len_s(n) >= 1
                    && len_sq_s(n) >= SCALE - 1542,
                None => true,
            },
    {
        let s_i128: i128 = SCALE as i128;
        proof {
            crate::vec3::lemma_dot_bound(ray.d, ray.d, RAY_LIMIT as int, RAY_LIMIT as int);
            assert(3 * (RAY_LIMIT as int) * (RAY_LIMIT as int) == 3541774862152233910272int)
                by (nonlinear_arith)
                requires
                    RAY_LIMIT == 0x8_0000_0000,
            ;
        }
        let ls = ray.d.len_sq();
        let l = fx_sqrt(ls);
        if l == 0 {
            return None;
        }
        proof {
            crate::vec3::lemma_norm_usable(ray.d);
        }
        let d = Vec3::normalize(ray.d);
        let v = ray.p.sub(self.c);
        proof {
            crate::vec3::lemma_dot_self_nonneg(d);
            crate::vec3::lemma_dot_bound(d, v, crate::vec3::NORM_LIMIT as int, 34376515584int);
            assert(3 * (crate::vec3::NORM_LIMIT as int) * 34376515584int
                == 1736985379816341504int) by (nonlinear_arith)
                requires
                    crate::vec3::NORM_LIMIT == 16842752,
            ;
            crate::vec3::lemma_dot_bound(v, v, 34376515584int, 34376515584int);
            assert(3 * 34376515584int * 34376515584int == 3545234471090984583168int)
                by (nonlinear_arith);
            lemma_fx_mul_bound(self.r as int, self.r as int, COORD_LIMIT as int,
                COORD_LIMIT as int);
            assert((COORD_LIMIT as int) * (COORD_LIMIT as int) == 281474976710656int)
                by (nonlinear_arith)
                requires
                    COORD_LIMIT == 0x100_0000,
            ;
        }
        proof {
            crate::vec3::lemma_dot_bound(d, d, crate::vec3::NORM_LIMIT as int,
                crate::vec3::NORM_LIMIT as int);
            assert(3 * (crate::vec3::NORM_LIMIT as int) * (crate::vec3::NORM_LIMIT as int)
                == 851034884800512int) by (nonlinear_arith)
                requires
                    crate::vec3::NORM_LIMIT == 16842752,
            ;
        }
        let a = Vec3::dot(d, d);
        proof {
            // The normalized direction keeps a positive squared length, so
            // the quadratic's leading coefficient never vanishes.
            assert(a >= SCALE - 1542);
        }
        let bdot = Vec3::dot(d, v);
        let b: i64 = 2 * bdot;
        let rr = fx_mul(self.r, self.r);
        let cdot = Vec3::dot(v, v);
        let c: i64 = cdot - rr;
        proof {
            lemma_abs_mul(b as int, b as int, 53008587030528int, 53008587030528int);
            lemma_abs_mul((4 * a) as int, c as int, 51943047168int, 54095989266448384int);
            lemma_tdiv_bound((b as int) * (b as int),
                53008587030528int * 53008587030528int, SCALE as int);
            lemma_tdiv_bound(((4 * a) as int) * (c as int),
                51943047168int * 54095989266448384int, SCALE as int);
            assert(53008587030528int * 53008587030528int == 2809910298973061288803958784int)
                by (nonlinear_arith);
            assert(51943047168int * 54095989266448384int == 2809910522066750129949376512int)
                by (nonlinear_arith);
        }
        let discrm: i128 = ((b as i128) * (b as i128)) / s_i128
            - (((4 * a) as i128) * (c as i128)) / s_i128;
        if discrm < 0 {
            return None;
        }
        proof {
            assert((discrm as int) * (SCALE as int)
                < 0x4000_0000_0000_0000_0000_0000_0000_0000int
                && (discrm as int) * (SCALE as int)
                    < 72057594037927936int * 72057594037927936int) by (nonlinear_arith)
                requires
                    0 <= discrm as int <= 85751660477292044353536int,
                    SCALE == 65536,
            ;
            lemma_fx_sqrt_lt(discrm as int, 72057594037927936int);
        }
        let two_a: i128 = (2 * a) as i128;
        let t: i128 = if discrm > 0 {
            let sq: i128 = fx_sqrt_wide(discrm);
            proof {
                assert(72110602624958464int * (SCALE as int) == 4725840453629277896704int)
                    by (nonlinear_arith)
                    requires
                        SCALE == 65536,
                ;
                lemma_abs_mul((-(b as int) + sq as int), SCALE as int,
                    72110602624958464int, SCALE as int);
                lemma_abs_mul((-(b as int) - sq as int), SCALE as int,
                    72110602624958464int, SCALE as int);
            }
            let t1: i128 = ((-(b as i128) + sq) * s_i128) / two_a;
            let t2: i128 = ((-(b as i128) - sq) * s_i128) / two_a;
            if t1 < t2 {
                t1
            } else {
                t2
            }
        } else {
            proof {
                assert(53008587030528int * (SCALE as int) == 3473970759632683008int)
                    by (nonlinear_arith)
                    requires
                        SCALE == 65536,
                ;
                lemma_abs_mul(-(b as int), SCALE as int, 53008587030528int, SCALE as int);
            }
            ((-(b as i128)) * s_i128) / two_a
        };
        if t < 0 || t > (T_LIMIT as i128) {
            return None;
        }
        let t64: i64 = t as i64;
        proof {
            lemma_fx_mul_bound(d.x as int, t64 as int, crate::vec3::NORM_LIMIT as int,
                T_LIMIT as int);
            lemma_fx_mul_bound(d.y as int, t64 as int, crate::vec3::NORM_LIMIT as int,
                T_LIMIT as int);
            lemma_fx_mul_bound(d.z as int, t64 as int, crate::vec3::NORM_LIMIT as int,
                T_LIMIT as int);
            assert((crate::vec3::NORM_LIMIT as int) * (T_LIMIT as int) == 1130297953353728int)
                by (nonlinear_arith)
                requires
                    crate::vec3::NORM_LIMIT == 16842752,
                    T_LIMIT == 0x400_0000,
            ;
        }
        let step = d.mul(t64);
        let pi = ray.p.add_vec(step);
        let w = pi.sub(self.c);
        proof {
            crate::vec3::lemma_dot_bound(w, w, 51623493632int, 51623493632int);
            assert(3 * 51623493632int * 51623493632int == 7994955284319433654272int)
                by (nonlinear_arith);
        }
        let wls = w.len_sq();
        let wl = fx_sqrt(wls);
        if wl == 0 {
            return None;
        }
        proof {
            crate::vec3::lemma_norm_usable(w);
        }
        let n = Vec3::normalize(w);
        Some((t64, pi, n))
    }
}

} // verus!
