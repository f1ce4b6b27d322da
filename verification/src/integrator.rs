//! The shading integrator: nearest-hit search, per-light shadow testing,
//! Blinn-Phong shading, and bounded-depth mirror reflection.

use vstd::prelude::*;
use crate::fx::{SCALE, fx_mul_s, clamp_s, fx_pow_s, fx_clamp, fx_pow, fx_sqrt,
    lemma_fx_mul_bound, lemma_fx_mul_unit};
use crate::vec3::{Vec3, v_in, dot_s, len_s, norm_s, add_s, scale_v_s, NORM_LIMIT};
use crate::point3::{Point3, p_in, sub_pp_s, add_pv_s};
use crate::rgb::{Rgb, rgb_in, rgb_add_s, rgb_scale_s, rgb_clamp_s};
use crate::ray::{Ray, ray_in, COORD_LIMIT, RAY_LIMIT, T_LIMIT};
use crate::shape::{Shape, shape_wf, shape_hit_s};

verus! {

/// The shadow-ray offset along the hit normal, about one thousandth of a
/// world unit, which prevents a surface from shadowing itself.
pub const EPS: i64 = 66;

/// The fixed mirror-reflection weight, about three tenths.
pub const REFL: i64 = 19661;

/// Largest number of lights a scene may carry.
pub const LIGHT_MAX: usize = 4096;

/// A hit-point coordinate bound: where a ray from an in-range origin can
/// land within the accepted parameter range.
pub const HITP_LIMIT: i64 = 17196646400;

/// A bound on one light's shading contribution per channel.
pub const TERM_LIMIT: i64 = 3324371795968;

/// A surface's shading response: ambient, diffuse and specular colors, and
/// whether it mirrors incoming light.
#[derive(Clone, Copy, Debug)]
pub struct Material {
    pub ambient: Rgb,
    pub diffuse: Rgb,
    pub specular: Rgb,
    pub reflect: bool,
}

/// One scene entry: a shape and the material it is shaded with.
#[derive(Clone, Copy, Debug)]
pub struct Object {
    pub shape: Shape,
    pub material: Material,
}

/// Material channels lie within the representable intensity range.
pub open spec fn material_wf(m: Material) -> bool {
    rgb_in(m.ambient, COORD_LIMIT as int) && rgb_in(m.diffuse, COORD_LIMIT as int)
        && rgb_in(m.specular, COORD_LIMIT as int)
}

pub open spec fn object_wf(o: Object) -> bool {
    shape_wf(o.shape) && material_wf(o.material)
}

/// Every object of the scene is well formed.
pub open spec fn scene_wf(objs: Seq<Object>) -> bool {
    forall|i: int| 0 <= i < objs.len() ==> object_wf(#[trigger] objs[i])
}

/// The light list is well formed: in-range positions, and few enough that
/// their contributions cannot overflow.
pub open spec fn lights_wf(lights: Seq<Point3>) -> bool {
    lights.len() <= LIGHT_MAX && (forall|i: int|
        0 <= i < lights.len() ==> p_in(#[trigger] lights[i], COORD_LIMIT as int))
}

/// The nearest-hit scan over a scene prefix: the smallest hit parameter
/// seen, and the index and normal of the object that produced it. Earlier
/// objects win ties.
pub open spec fn scan_s(objs: Seq<Object>, ray: Ray) -> (i64, Option<(int, Vec3)>)
    decreases objs.len(),
{
    if objs.len() == 0 {
        (i64::MAX, None::<(int, Vec3)>)
    } else {
        let prev = scan_s(objs.drop_last(), ray);
        match shape_hit_s(objs.last().shape, ray) {
            Some((t, pi, n)) => if t < prev.0 {
                (t, Some((objs.len() - 1, n)))
            } else {
                prev
            },
            None => prev,
        }
    }
}

/// Some object of the scene blocks the ray.
pub open spec fn blocked_s(objs: Seq<Object>, ray: Ray) -> bool {
    exists|i: int| 0 <= i < objs.len() && (#[trigger] shape_hit_s(objs[i].shape, ray)) is Some
}

/// The point the integrator shades: the ray origin moved by the hit
/// parameter along the raw ray direction.
pub open spec fn hit_point_s(ray: Ray, t: int) -> Point3 {
    Point3 {
        x: (ray.p.x + fx_mul_s(ray.d.x as int, t)) as i64,
        y: (ray.p.y + fx_mul_s(ray.d.y as int, t)) as i64,
        z: (ray.p.z + fx_mul_s(ray.d.z as int, t)) as i64,
    }
}

/// The shadow ray towards a light: it starts a little off the surface
/// along the normal, and its direction reaches from there to the light.
pub open spec fn shadow_ray_s(p: Point3, n: Vec3, light: Point3) -> Ray {
    let offset = add_pv_s(p, scale_v_s(n, EPS as int));
    Ray { p: offset, d: sub_pp_s(light, offset) }
}

/// One light's contribution at a hit point with unit normal `n`: nothing
/// if any object blocks the shadow ray or if a direction degenerates at
/// this resolution; otherwise the Blinn-Phong diffuse and specular terms.
/// The shadow test is binary and unbounded along the ray, so an occluder
/// beyond the light still darkens it; that is a deliberate property of
/// this integrator. The specular cosine is clamped to one before being
/// raised to the shininess power; with exact arithmetic it never exceeds
/// one, so the clamp only absorbs rounding.
pub open spec fn light_term_s(
    objs: Seq<Object>,
    mat: Material,
    p: Point3,
    n: Vec3,
    cam: Point3,
    light: Point3,
) -> Rgb {
    if blocked_s(objs, shadow_ray_s(p, n, light)) {
        Rgb { r: 0i64, g: 0i64, b: 0i64 }
    } else {
        let lv = sub_pp_s(light, p);
        let cv = sub_pp_s(cam, p);
        if len_s(lv) == 0 || len_s(cv) == 0 {
            Rgb { r: 0i64, g: 0i64, b: 0i64 }
        } else {
            let l = norm_s(lv);
            let vv = norm_s(cv);
            let hv = add_s(l, vv);
            if len_s(hv) == 0 {
                Rgb { r: 0i64, g: 0i64, b: 0i64 }
            } else {
                let h = norm_s(hv);
                let diff_coeff = if dot_s(l, n) < 0 {
                    0
                } else {
                    dot_s(l, n)
                };
                let spec_coeff = fx_pow_s(clamp_s(dot_s(n, h), 0, SCALE as int), 100);
                rgb_add_s(rgb_scale_s(mat.diffuse, diff_coeff),
                    rgb_scale_s(mat.specular, spec_coeff))
            }
        }
    }
}

/// The summed contribution of a prefix of the light list.
pub open spec fn lights_sum_s(
    objs: Seq<Object>,
    mat: Material,
    p: Point3,
    n: Vec3,
    cam: Point3,
    lights: Seq<Point3>,
) -> Rgb
    decreases lights.len(),
{
    if lights.len() == 0 {
        Rgb { r: 0i64, g: 0i64, b: 0i64 }
    } else {
        rgb_add_s(lights_sum_s(objs, mat, p, n, cam, lights.drop_last()),
            light_term_s(objs, mat, p, n, cam, lights.last()))
    }
}

/// The mirror direction of the normalized incoming direction `dn` about
/// the hit normal `n0`.
pub open spec fn reflect_dir_s(dn: Vec3, n0: Vec3) -> Vec3 {
    let coef = 2 * dot_s(dn, n0);
    Vec3 {
        x: (dn.x - fx_mul_s(n0.x as int, coef)) as i64,
        y: (dn.y - fx_mul_s(n0.y as int, coef)) as i64,
        z: (dn.z - fx_mul_s(n0.z as int, coef)) as i64,
    }
}

/// The color `li` returns: black if nothing is hit; otherwise the ambient
/// term plus each light's contribution, plus a weighted mirror bounce while
/// the depth budget lasts, clamped to the unit range. A reflected ray that
/// leaves the representable scene volume, or a degenerate incoming
/// direction, contributes nothing.
pub open spec fn li_spec(
    ray: Ray,
    objs: Seq<Object>,
    cam: Point3,
    lights: Seq<Point3>,
    depth: int,
) -> Rgb
    decreases depth,
{
    let sc = scan_s(objs, ray);
    match sc.1 {
        None => Rgb { r: 0i64, g: 0i64, b: 0i64 },
        Some((idx, n0)) => {
            let mat = objs[idx].material;
            let p = hit_point_s(ray, sc.0 as int);
            let n = norm_s(n0);
            let direct = rgb_add_s(mat.ambient, lights_sum_s(objs, mat, p, n, cam, lights));
            let total = if mat.reflect && depth > 0 && len_s(ray.d) != 0 {
                let rray = Ray { p, d: reflect_dir_s(norm_s(ray.d), n0) };
                if p_in(rray.p, COORD_LIMIT as int) && v_in(rray.d, COORD_LIMIT as int) {
                    rgb_add_s(direct,
                        rgb_scale_s(li_spec(rray, objs, cam, lights, depth - 1), REFL as int))
                } else {
                    direct
                }
            } else {
                direct
            };
            rgb_clamp_s(total)
        },
    }
}

/// The direct-lighting part of `li_spec` alone: what the integrator
/// returns when no reflection is followed.
pub open spec fn li_direct_s(ray: Ray, objs: Seq<Object>, cam: Point3, lights: Seq<Point3>)
    -> Rgb {
    let sc = scan_s(objs, ray);
    match sc.1 {
        None => Rgb { r: 0i64, g: 0i64, b: 0i64 },
        Some((idx, n0)) => {
            let mat = objs[idx].material;
            let p = hit_point_s(ray, sc.0 as int);
            let n = norm_s(n0);
            rgb_clamp_s(rgb_add_s(mat.ambient, lights_sum_s(objs, mat, p, n, cam, lights)))
        },
    }
}

/// With the depth budget exhausted, the integrator adds no reflection
/// contribution, whatever the scene holds: the result is exactly the
/// direct-lighting value.
pub proof fn lemma_no_reflection_when_exhausted(
    ray: Ray,
    objs: Seq<Object>,
    cam: Point3,
    lights: Seq<Point3>,
    depth: int,
)
    requires
        depth <= 0,
    ensures
        li_spec(ray, objs, cam, lights, depth) == li_direct_s(ray, objs, cam, lights),
{
}

/// When every shadow ray from a list of lights is blocked, the summed
/// light contribution is exactly zero.
proof fn lemma_lights_sum_zero_when_blocked(
    objs: Seq<Object>,
    mat: Material,
    p: Point3,
    n: Vec3,
    cam: Point3,
    lights: Seq<Point3>,
)
    requires
        forall|j: int|
            0 <= j < lights.len() ==> blocked_s(objs, shadow_ray_s(p, n, #[trigger] lights[j])),
    ensures
        lights_sum_s(objs, mat, p, n, cam, lights) == (Rgb { r: 0i64, g: 0i64, b: 0i64 }),
    decreases lights.len(),
{
    if lights.len() > 0 {
        assert forall|j: int| 0 <= j < lights.drop_last().len() implies blocked_s(objs,
            shadow_ray_s(p, n, #[trigger] lights.drop_last()[j])) by {
            assert(lights.drop_last()[j] == lights[j]);
        }
        lemma_lights_sum_zero_when_blocked(objs, mat, p, n, cam, lights.drop_last());
        assert(lights.last() == lights[lights.len() - 1]);
        assert(blocked_s(objs, shadow_ray_s(p, n, lights.last())));
        assert(light_term_s(objs, mat, p, n, cam, lights.last())
            == (Rgb { r: 0i64, g: 0i64, b: 0i64 }));
    }
}

/// A hit whose every light is occluded, on a material that does not
/// mirror, shades to the clamped ambient term alone: no diffuse or
/// specular contribution remains.
pub proof fn lemma_ambient_when_all_blocked(
    ray: Ray,
    objs: Seq<Object>,
    cam: Point3,
    lights: Seq<Point3>,
    depth: int,
)
    requires
        scan_s(objs, ray).1 is Some,
        !objs[scan_s(objs, ray).1->Some_0.0].material.reflect,
        forall|j: int|
            0 <= j < lights.len() ==> blocked_s(objs,
                shadow_ray_s(hit_point_s(ray, scan_s(objs, ray).0 as int),
                    norm_s(scan_s(objs, ray).1->Some_0.1), #[trigger] lights[j])),
    ensures
        li_spec(ray, objs, cam, lights, depth)
            == rgb_clamp_s(objs[scan_s(objs, ray).1->Some_0.0].material.ambient),
{
    let sc = scan_s(objs, ray);
    let idx = sc.1->Some_0.0;
    let n0 = sc.1->Some_0.1;
    let mat = objs[idx].material;
    let p = hit_point_s(ray, sc.0 as int);
    let n = norm_s(n0);
    lemma_lights_sum_zero_when_blocked(objs, mat, p, n, cam, lights);
    assert(rgb_add_s(mat.ambient, Rgb { r: 0i64, g: 0i64, b: 0i64 }) == mat.ambient);
}

/// One light's contribution, executed: shadow scan, then the shading
/// terms.
fn direct_light_term(
    objs: &Vec<Object>,
    mat: &Material,
    p: Point3,
    n: Vec3,
    cam: Point3,
    light: Point3,
) -> (term: Rgb)
    requires
        scene_wf(objs@),
        material_wf(*mat),
        p_in(p, HITP_LIMIT as int),
        v_in(n, NORM_LIMIT as int),
        p_in(cam, COORD_LIMIT as int),
        p_in(light, COORD_LIMIT as int),
    ensures
        term == light_term_s(objs@, *mat, p, n, cam, light),
        rgb_in(term, TERM_LIMIT as int),
{
    proof {
        lemma_fx_mul_bound(n.x as int, EPS as int, NORM_LIMIT as int, EPS as int);
        lemma_fx_mul_bound(n.y as int, EPS as int, NORM_LIMIT as int, EPS as int);
        lemma_fx_mul_bound(n.z as int, EPS as int, NORM_LIMIT as int, EPS as int);
        assert((NORM_LIMIT as int) * (EPS as int) == 1111621632int) by (nonlinear_arith)
            requires
                NORM_LIMIT == 16842752,
                EPS == 66,
        ;
    }
    let offset = p.add_vec(n.mul(EPS));
    let sray = Ray { p: offset, d: light.sub(offset) };
    proof {
        assert(sray == shadow_ray_s(p, n, light));
        assert(ray_in(sray, RAY_LIMIT as int));
    }
    let mut blocked = false;
    let mut k: usize = 0;
    while k < objs.len() && !blocked
        invariant
            0 <= k <= objs.len(),
            scene_wf(objs@),
            ray_in(sray, RAY_LIMIT as int),
            blocked ==> blocked_s(objs@, sray),
            !blocked ==> !blocked_s(objs@.take(k as int), sray),
        decreases objs.len() - k,
    {
        let res = objs[k].shape.intersect(&sray);
        proof {
            assert(objs@.take(k as int + 1).drop_last() =~= objs@.take(k as int));
            assert(objs@.take(k as int + 1).last() == objs@[k as int]);
        }
        if res.is_some() {
            blocked = true;
            proof {
                assert(shape_hit_s(objs@[k as int].shape, sray) is Some);
            }
        } else {
            blocked = false;
            proof {
                assert forall|i: int| 0 <= i < k as int + 1 implies
                    !((#[trigger] shape_hit_s(objs@.take(k as int + 1)[i].shape, sray)) is Some)
                by {
                    assert(objs@.take(k as int + 1)[i] == objs@[i]);
                    if i < k as int {
                        assert(objs@.take(k as int)[i] == objs@[i]);
                        assert(!blocked_s(objs@.take(k as int), sray));
                    }
                }
            }
        }
        k = k + 1;
    }
    if blocked {
        return Rgb::new(0, 0, 0);
    }
    proof {
        assert(objs@.take(objs@.len() as int) =~= objs@);
        assert(!blocked_s(objs@, sray));
    }
    let lv = light.sub(p);
    let cv = cam.sub(p);
    proof {
        crate::vec3::lemma_dot_bound(lv, lv, 17213423616int, 17213423616int);
        crate::vec3::lemma_dot_bound(cv, cv, 17213423616int, 17213423616int);
        assert(3 * 17213423616int * 17213423616int == 888905857751599546368int)
            by (nonlinear_arith);
    }
    let lvl = fx_sqrt(lv.len_sq());
    let cvl = fx_sqrt(cv.len_sq());
    if lvl == 0 || cvl == 0 {
        return Rgb::new(0, 0, 0);
    }
    proof {
        crate::vec3::lemma_norm_usable(lv);
        crate::vec3::lemma_norm_usable(cv);
    }
    let l = Vec3::normalize(lv);
    let vv = Vec3::normalize(cv);
    let hv = l.add(vv);
    proof {
        crate::vec3::lemma_dot_bound(hv, hv, 33685504int, 33685504int);
        assert(3 * 33685504int * 33685504int == 3404139539202048int) by (nonlinear_arith);
    }
    let hvl = fx_sqrt(hv.len_sq());
    if hvl == 0 {
        return Rgb::new(0, 0, 0);
    }
    proof {
        crate::vec3::lemma_norm_usable(hv);
    }
    let h = Vec3::normalize(hv);
    proof {
        crate::vec3::lemma_dot_bound(l, n, NORM_LIMIT as int, NORM_LIMIT as int);
        crate::vec3::lemma_dot_bound(n, h, NORM_LIMIT as int, NORM_LIMIT as int);
        assert(3 * (NORM_LIMIT as int) * (NORM_LIMIT as int) == 851034884800512int)
            by (nonlinear_arith)
            requires
                NORM_LIMIT == 16842752,
        ;
    }
    let ldn = Vec3::dot(l, n);
    let diff_coeff: i64 = if ldn < 0 {
        0
    } else {
        ldn
    };
    let spec_base = fx_clamp(Vec3::dot(n, h), 0, SCALE);
    let spec_coeff = fx_pow(spec_base, 100);
    proof {
        lemma_fx_mul_bound(mat.diffuse.r as int, diff_coeff as int, COORD_LIMIT as int,
            12985761792int);
        lemma_fx_mul_bound(mat.diffuse.g as int, diff_coeff as int, COORD_LIMIT as int,
            12985761792int);
        lemma_fx_mul_bound(mat.diffuse.b as int, diff_coeff as int, COORD_LIMIT as int,
            12985761792int);
        assert((COORD_LIMIT as int) * 12985761792int == 217864930508931072int)
            by (nonlinear_arith)
            requires
                COORD_LIMIT == 0x100_0000,
        ;
        lemma_fx_mul_bound(mat.specular.r as int, spec_coeff as int, COORD_LIMIT as int,
            SCALE as int);
        lemma_fx_mul_bound(mat.specular.g as int, spec_coeff as int, COORD_LIMIT as int,
            SCALE as int);
        lemma_fx_mul_bound(mat.specular.b as int, spec_coeff as int, COORD_LIMIT as int,
            SCALE as int);
        assert((COORD_LIMIT as int) * (SCALE as int) == 1099511627776int) by (nonlinear_arith)
            requires
                COORD_LIMIT == 0x100_0000,
                SCALE == 65536,
        ;
    }
    let term = mat.diffuse.scale(diff_coeff).add(mat.specular.scale(spec_coeff));
    term
}

/// Shade one ray against the scene: find the nearest hit, accumulate the
/// ambient term and each visible light's Blinn-Phong contribution, follow
/// one weighted mirror bounce per depth unit on reflective materials, and
/// clamp the result to the unit range. Black when nothing is hit.
#[verifier::rlimit(100)]
pub fn li(
    ray: &Ray,
    objs: &Vec<Object>,
    camera_pos: Point3,
    lights: &Vec<Point3>,
    max_depth: i8,
) -> (c: Rgb)
    requires
        scene_wf(objs@),
        lights_wf(lights@),
        ray_in(*ray, COORD_LIMIT as int),
        p_in(camera_pos, COORD_LIMIT as int),
    ensures
        c == li_spec(*ray, objs@, camera_pos, lights@, max_depth as int),
        0 <= c.r <= SCALE && 0 <= c.g <= SCALE && 0 <= c.b <= SCALE,
    decreases max_depth,
{
    let mut min_t: i64 = i64::MAX;
    let mut hit_res: Option<(usize, Vec3)> = None;
    let mut i: usize = 0;
    while i < objs.len()
        invariant
            0 <= i <= objs.len(),
            scene_wf(objs@),
            ray_in(*ray, COORD_LIMIT as int),
            min_t == scan_s(objs@.take(i as int), *ray).0,
            match (hit_res, scan_s(objs@.take(i as int), *ray).1) {
                (Some((j, n)), Some((sj, sn))) => j as int == sj && n == sn && (j as int) < i
                    && v_in(n, NORM_LIMIT as int) && dot_s(n, n) <= i64::MAX && len_s(n) >= 1
                    && 0 <= min_t <= T_LIMIT,
                (None, None) => true,
                _ => false,
            },
        decreases objs.len() - i,
    {
        let res = objs[i].shape.intersect(ray);
        proof {
            assert(objs@.take(i as int + 1).drop_last() =~= objs@.take(i as int));
            assert(objs@.take(i as int + 1).last() == objs@[i as int]);
        }
        match res {
            Some((t, _pi, n)) => {
                if t < min_t {
                    min_t = t;
                    hit_res = Some((i, n));
                }
            },
            None => (),
        }
        i = i + 1;
    }
    proof {
        assert(objs@.take(objs@.len() as int) =~= objs@);
    }
    match hit_res {
        Some((idx, n0)) => {
            let mat = objs[idx].material;
            proof {
                lemma_fx_mul_bound(ray.d.x as int, min_t as int, COORD_LIMIT as int,
                    T_LIMIT as int);
                lemma_fx_mul_bound(ray.d.y as int, min_t as int, COORD_LIMIT as int,
                    T_LIMIT as int);
                lemma_fx_mul_bound(ray.d.z as int, min_t as int, COORD_LIMIT as int,
                    T_LIMIT as int);
                assert((COORD_LIMIT as int) * (T_LIMIT as int) == 1125899906842624int)
                    by (nonlinear_arith)
                    requires
                        COORD_LIMIT == 0x100_0000,
                        T_LIMIT == 0x400_0000,
                ;
            }
            let step = ray.d.mul(min_t);
            let p = ray.p.add_vec(step);
            proof {
                assert(p == hit_point_s(*ray, min_t as int));
                assert(p_in(p, HITP_LIMIT as int));
                crate::vec3::lemma_norm_usable(n0);
            }
            let n = Vec3::normalize(n0);
            let mut total = mat.ambient;
            let mut j: usize = 0;
            while j < lights.len()
                invariant
                    0 <= j <= lights.len(),
                    scene_wf(objs@),
                    lights_wf(lights@),
                    material_wf(mat),
                    p_in(p, HITP_LIMIT as int),
                    v_in(n, NORM_LIMIT as int),
                    p_in(camera_pos, COORD_LIMIT as int),
                    total == rgb_add_s(mat.ambient,
                        lights_sum_s(objs@, mat, p, n, camera_pos, lights@.take(j as int))),
                    rgb_in(lights_sum_s(objs@, mat, p, n, camera_pos, lights@.take(j as int)),
                        (j as int) * (TERM_LIMIT as int)),
                    rgb_in(total, COORD_LIMIT as int + (j as int) * (TERM_LIMIT as int)),
                decreases lights.len() - j,
            {
                let term = direct_light_term(objs, &mat, p, n, camera_pos, lights[j]);
                proof {
                    assert(lights@.take(j as int + 1).drop_last() =~= lights@.take(j as int));
                    assert(lights@.take(j as int + 1).last() == lights@[j as int]);
                    let sum_j = lights_sum_s(objs@, mat, p, n, camera_pos,
                        lights@.take(j as int));
                    let sum_j1 = lights_sum_s(objs@, mat, p, n, camera_pos,
                        lights@.take(j as int + 1));
                    assert(sum_j1 == rgb_add_s(sum_j,
                        light_term_s(objs@, mat, p, n, camera_pos, lights@[j as int])));
                }
                total = total.add(term);
                j = j + 1;
            }
            proof {
                assert(lights@.take(lights@.len() as int) =~= lights@);
            }
            if mat.reflect && max_depth > 0 {
                proof {
                    crate::vec3::lemma_dot_bound(ray.d, ray.d, COORD_LIMIT as int,
                        COORD_LIMIT as int);
                    assert(3 * (COORD_LIMIT as int) * (COORD_LIMIT as int)
                        == 844424930131968int) by (nonlinear_arith)
                        requires
                            COORD_LIMIT == 0x100_0000,
                    ;
                }
                let dl = fx_sqrt(ray.d.len_sq());
                if dl != 0 {
                    proof {
                        crate::vec3::lemma_norm_usable(ray.d);
                    }
                    let dn = Vec3::normalize(ray.d);
                    proof {
                        crate::vec3::lemma_dot_bound(dn, n0, NORM_LIMIT as int,
                            NORM_LIMIT as int);
                        assert(3 * (NORM_LIMIT as int) * (NORM_LIMIT as int)
                            == 851034884800512int) by (nonlinear_arith)
                            requires
                                NORM_LIMIT == 16842752,
                        ;
                    }
                    let coef: i64 = 2 * Vec3::dot(dn, n0);
                    proof {
                        lemma_fx_mul_bound(n0.x as int, coef as int, NORM_LIMIT as int,
                            25971523584int);
                        lemma_fx_mul_bound(n0.y as int, coef as int, NORM_LIMIT as int,
                            25971523584int);
                        lemma_fx_mul_bound(n0.z as int, coef as int, NORM_LIMIT as int,
                            25971523584int);
                        assert((NORM_LIMIT as int) * 25971523584int == 437431930787463168int)
                            by (nonlinear_arith)
                            requires
                                NORM_LIMIT == 16842752,
                        ;
                    }
                    let rdir = dn.sub(n0.mul(coef));
                    proof {
                        assert(rdir == reflect_dir_s(norm_s(ray.d), n0));
                    }
                    let rray = Ray { p, d: rdir };
                    if p.in_bounds(COORD_LIMIT) && rdir.in_bounds(COORD_LIMIT) {
                        let bounce = li(&rray, objs, camera_pos, lights, max_depth - 1);
                        proof {
                            lemma_fx_mul_unit(bounce.r as int, REFL as int);
                            lemma_fx_mul_unit(bounce.g as int, REFL as int);
                            lemma_fx_mul_unit(bounce.b as int, REFL as int);
                        }
                        total = total.add(bounce.scale(REFL));
                    }
                }
            }
            total.clamp_to_unit()
        },
        None => {
            proof {
                assert(li_spec(*ray, objs@, camera_pos, lights@, max_depth as int)
                    == (Rgb { r: 0i64, g: 0i64, b: 0i64 }));
            }
            Rgb::new(0, 0, 0)
        },
    }
}

} // verus!
