//! Rays: the parametric half-lines that sampling and shading trace through
//! the scene.

use vstd::prelude::*;
use crate::point3::Point3;
use crate::vec3::Vec3;

verus! {

/// The half-line `p + t * d` for `t >= 0`; `p` is the origin and `d` the
/// direction, which need not be unit length.
#[derive(Clone, Copy, Debug, PartialEq, Eq, Structural)]
pub struct Ray {
    pub p: Point3,
    pub d: Vec3,
}

/// Largest coordinate magnitude of scene geometry, lights and camera: 256
/// world units.
pub const COORD_LIMIT: i64 = 0x100_0000;

/// Largest ray-origin or ray-direction component the intersection tests
/// accept; shadow and reflection rays spawned from any in-range scene stay
/// within it.
pub const RAY_LIMIT: i64 = 0x8_0000_0000;

/// Largest ray parameter reported as a hit: 1024 world units along the
/// ray's own parametrization. A farther intersection is outside the
/// representable scene volume and is reported as no hit.
pub const T_LIMIT: i64 = 0x400_0000;

/// A ray the intersection tests accept.
pub open spec fn ray_in(r: Ray, m: int) -> bool {
    crate::point3::p_in(r.p, m) && crate::vec3::v_in(r.d, m)
}

} // verus!
