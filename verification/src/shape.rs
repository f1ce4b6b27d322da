//! The closed set of scene shapes and their shared intersection capability.

use vstd::prelude::*;
use crate::fx::SCALE;
use crate::vec3::{Vec3, v_in, dot_s, len_s, len_sq_s, NORM_LIMIT};
use crate::point3::Point3;
use crate::ray::{Ray, ray_in, RAY_LIMIT, T_LIMIT};
use crate::sphere::{Sphere, sphere_wf, sphere_hit_s};
use crate::triangle::{Triangle, triangle_wf, triangle_hit_s};

verus! {

/// A scene shape: every shape offers `intersect` and nothing else.
#[derive(Clone, Copy, Debug)]
pub enum Shape {
    Sphere(Sphere),
    Triangle(Triangle),
}

/// The shape's geometry lies within the representable scene volume.
pub open spec fn shape_wf(s: Shape) -> bool {
    match s {
        Shape::Sphere(sp) => sphere_wf(sp),
        Shape::Triangle(tr) => triangle_wf(tr),
    }
}

/// The value `Shape::intersect` computes, by variant.
pub open spec fn shape_hit_s(s: Shape, ray: Ray) -> Option<(i64, Point3, Vec3)> {
    match s {
        Shape::Sphere(sp) => sphere_hit_s(sp, ray),
        Shape::Triangle(tr) => triangle_hit_s(tr, ray),
    }
}

/// What every reported hit guarantees: a parameter within range and a
/// normal that is usable as a unit vector.
pub open spec fn hit_props(res: Option<(i64, Point3, Vec3)>) -> bool {
    match res {
        Some((t, pi, n)) => 0 <= t <= T_LIMIT && v_in(n, NORM_LIMIT as int)
            && dot_s(n, n) <= i64::MAX && len_s(n) >= 1 && len_sq_s(n) >= SCALE - 1542,
        None => true,
    }
}

impl Shape {
    /// Intersect a ray with the shape, dispatching on the variant.
    pub fn intersect(&self, ray: &Ray) -> (res: Option<(i64, Point3, Vec3)>)
        requires
            shape_wf(*self),
            ray_in(*ray, RAY_LIMIT as int),
        ensures
            res == shape_hit_s(*self, *ray),
            hit_props(res),
    {
        match self {
            Shape::Sphere(sp) => sp.intersect(ray),
            Shape::Triangle(tr) => tr.intersect(ray),
        }
    }
}

} // verus!
