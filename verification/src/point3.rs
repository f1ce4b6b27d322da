//! Positions in space over fixed-point scalars.
//!
//! A point differs from a vector in its arithmetic: subtracting two points
//! yields the displacement between them, and adding a vector to a point
//! moves it.

use vstd::prelude::*;
use crate::fx::{fx_mul_s, fx_div_s, fx_mul, fx_div};
use crate::vec3::Vec3;

verus! {

/// A position in space; each component is a 16.16 fixed-point scalar.
#[derive(Clone, Copy, Debug, PartialEq, Eq, Structural)]
pub struct Point3 {
    pub x: i64,
    pub y: i64,
    pub z: i64,
}

/// All three components lie in `[-m, m]`.
pub open spec fn p_in(p: Point3, m: int) -> bool {
    -m <= p.x <= m && -m <= p.y <= m && -m <= p.z <= m
}

/// The displacement from `b` to `a`, for in-range values.
pub open spec fn sub_pp_s(a: Point3, b: Point3) -> Vec3 {
    Vec3 { x: (a.x - b.x) as i64, y: (a.y - b.y) as i64, z: (a.z - b.z) as i64 }
}

/// The point `p` moved by `v`, for in-range values.
pub open spec fn add_pv_s(p: Point3, v: Vec3) -> Point3 {
    Point3 { x: (p.x + v.x) as i64, y: (p.y + v.y) as i64, z: (p.z + v.z) as i64 }
}

/// Component selection by index.
pub open spec fn p_index_s(p: Point3, i: int) -> int {
    if i == 0 {
        p.x as int
    } else if i == 1 {
        p.y as int
    } else {
        p.z as int
    }
}

impl Point3 {
    pub fn new(x: i64, y: i64, z: i64) -> (r: Self)
        ensures
            r == (Point3 { x, y, z }),
    {
        Point3 { x, y, z }
    }

    pub fn zeroes() -> (r: Self)
        ensures
            r == (Point3 { x: 0i64, y: 0i64, z: 0i64 }),
    {
        Point3 { x: 0, y: 0, z: 0 }
    }

    /// Componentwise sum of two points.
    pub fn add(self, other: Self) -> (r: Self)
        requires
            i64::MIN <= self.x + other.x <= i64::MAX,
            i64::MIN <= self.y + other.y <= i64::MAX,
            i64::MIN <= self.z + other.z <= i64::MAX,
        ensures
            r.x == self.x + other.x,
            r.y == self.y + other.y,
            r.z == self.z + other.z,
    {
        Point3 { x: self.x + other.x, y: self.y + other.y, z: self.z + other.z }
    }

    /// The point moved by a displacement.
    pub fn add_vec(self, v: Vec3) -> (r: Self)
        requires
            i64::MIN <= self.x + v.x <= i64::MAX,
            i64::MIN <= self.y + v.y <= i64::MAX,
            i64::MIN <= self.z + v.z <= i64::MAX,
        ensures
            r.x == self.x + v.x,
            r.y == self.y + v.y,
            r.z == self.z + v.z,
            r == add_pv_s(self, v),
    {
        Point3 { x: self.x + v.x, y: self.y + v.y, z: self.z + v.z }
    }

    /// The displacement from `other` to `self`.
    pub fn sub(self, other: Self) -> (r: Vec3)
        requires
            i64::MIN <= self.x - other.x <= i64::MAX,
            i64::MIN <= self.y - other.y <= i64::MAX,
            i64::MIN <= self.z - other.z <= i64::MAX,
        ensures
            r.x == self.x - other.x,
            r.y == self.y - other.y,
            r.z == self.z - other.z,
            r == sub_pp_s(self, other),
    {
        Vec3 { x: self.x - other.x, y: self.y - other.y, z: self.z - other.z }
    }

    /// Scalar product.
    pub fn mul(self, s: i64) -> (r: Self)
        requires
            i64::MIN <= fx_mul_s(self.x as int, s as int) <= i64::MAX,
            i64::MIN <= fx_mul_s(self.y as int, s as int) <= i64::MAX,
            i64::MIN <= fx_mul_s(self.z as int, s as int) <= i64::MAX,
        ensures
            r.x == fx_mul_s(self.x as int, s as int),
            r.y == fx_mul_s(self.y as int, s as int),
            r.z == fx_mul_s(self.z as int, s as int),
    {
        Point3 { x: fx_mul(self.x, s), y: fx_mul(self.y, s), z: fx_mul(self.z, s) }
    }

    /// Scalar quotient; the divisor must be nonzero.
    pub fn div(self, s: i64) -> (r: Self)
        requires
            s != 0,
            i64::MIN <= fx_div_s(self.x as int, s as int) <= i64::MAX,
            i64::MIN <= fx_div_s(self.y as int, s as int) <= i64::MAX,
            i64::MIN <= fx_div_s(self.z as int, s as int) <= i64::MAX,
        ensures
            r.x == fx_div_s(self.x as int, s as int),
            r.y == fx_div_s(self.y as int, s as int),
            r.z == fx_div_s(self.z as int, s as int),
    {
        Point3 { x: fx_div(self.x, s), y: fx_div(self.y, s), z: fx_div(self.z, s) }
    }

    /// Componentwise negation.
    pub fn neg(self) -> (r: Self)
        requires
            self.x > i64::MIN,
            self.y > i64::MIN,
            self.z > i64::MIN,
        ensures
            r.x == -self.x,
            r.y == -self.y,
            r.z == -self.z,
    {
        Point3 { x: -self.x, y: -self.y, z: -self.z }
    }

    /// Whether every component lies in `[-m, m]`.
    pub fn in_bounds(&self, m: i64) -> (r: bool)
        requires
            m >= 0,
        ensures
            r == p_in(*self, m as int),
    {
        -m <= self.x && self.x <= m && -m <= self.y && self.y <= m && -m <= self.z && self.z <= m
    }

    /// Component by index; only 0, 1 and 2 are valid.
    pub fn index(&self, index: usize) -> (r: i64)
        requires
            index < 3,
        ensures
            r == p_index_s(*self, index as int),
    {
        if index == 0 {
            self.x
        } else if index == 1 {
            self.y
        } else {
            self.z
        }
    }

    /// Replace the component at `index`; only 0, 1 and 2 are valid.
    pub fn set(&mut self, index: usize, value: i64)
        requires
            index < 3,
        ensures
            index == 0 ==> *final(self) == (Point3 { x: value, ..*old(self) }),
            index == 1 ==> *final(self) == (Point3 { y: value, ..*old(self) }),
            index == 2 ==> *final(self) == (Point3 { z: value, ..*old(self) }),
    {
        if index == 0 {
            self.x = value;
        } else if index == 1 {
            self.y = value;
        } else {
            self.z = value;
        }
    }

    /// Componentwise sum in place.
    pub fn add_assign(&mut self, other: Self)
        requires
            i64::MIN <= old(self).x + other.x <= i64::MAX,
            i64::MIN <= old(self).y + other.y <= i64::MAX,
            i64::MIN <= old(self).z + other.z <= i64::MAX,
        ensures
            final(self).x == old(self).x + other.x,
            final(self).y == old(self).y + other.y,
            final(self).z == old(self).z + other.z,
    {
        self.x = self.x + other.x;
        self.y = self.y + other.y;
        self.z = self.z + other.z;
    }

    /// Scalar product in place.
    pub fn mul_assign(&mut self, s: i64)
        requires
            i64::MIN <= fx_mul_s(old(self).x as int, s as int) <= i64::MAX,
            i64::MIN <= fx_mul_s(old(self).y as int, s as int) <= i64::MAX,
            i64::MIN <= fx_mul_s(old(self).z as int, s as int) <= i64::MAX,
        ensures
            final(self).x == fx_mul_s(old(self).x as int, s as int),
            final(self).y == fx_mul_s(old(self).y as int, s as int),
            final(self).z == fx_mul_s(old(self).z as int, s as int),
    {
        self.x = fx_mul(self.x, s);
        self.y = fx_mul(self.y, s);
        self.z = fx_mul(self.z, s);
    }

    /// Scalar quotient in place; the divisor must be nonzero.
    pub fn div_assign(&mut self, s: i64)
        requires
            s != 0,
            i64::MIN <= fx_div_s(old(self).x as int, s as int) <= i64::MAX,
            i64::MIN <= fx_div_s(old(self).y as int, s as int) <= i64::MAX,
            i64::MIN <= fx_div_s(old(self).z as int, s as int) <= i64::MAX,
        ensures
            final(self).x == fx_div_s(old(self).x as int, s as int),
            final(self).y == fx_div_s(old(self).y as int, s as int),
            final(self).z == fx_div_s(old(self).z as int, s as int),
    {
        self.x = fx_div(self.x, s);
        self.y = fx_div(self.y, s);
        self.z = fx_div(self.z, s);
    }
}

impl Default for Point3 {
    /// The origin.
    fn default() -> (r: Self)
        ensures
            r == (Point3 { x: 0i64, y: 0i64, z: 0i64 }),
    {
        Point3::zeroes()
    }
}

} // verus!
