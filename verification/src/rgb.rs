//! RGB color triples over fixed-point scalars.
//!
//! Channels accumulate unclamped during shading; `clamp_to_unit` brings them
//! into `[0, 1]` only when a final value is produced.

use vstd::prelude::*;
use crate::fx::{SCALE, fx_mul_s, clamp_s, fx_mul, fx_clamp};

verus! {

/// A color; each channel is a 16.16 fixed-point scalar where `SCALE`
/// stands for full intensity.
#[derive(Clone, Copy, Debug, PartialEq, Eq, Structural)]
pub struct Rgb {
    pub r: i64,
    pub g: i64,
    pub b: i64,
}

/// All three channels lie in `[-m, m]`.
pub open spec fn rgb_in(c: Rgb, m: int) -> bool {
    -m <= c.r <= m && -m <= c.g <= m && -m <= c.b <= m
}

/// The channelwise sum, for in-range values.
pub open spec fn rgb_add_s(a: Rgb, b: Rgb) -> Rgb {
    Rgb { r: (a.r + b.r) as i64, g: (a.g + b.g) as i64, b: (a.b + b.b) as i64 }
}

/// The channelwise product, for in-range values.
pub open spec fn rgb_mul_s(a: Rgb, b: Rgb) -> Rgb {
    Rgb {
        r: fx_mul_s(a.r as int, b.r as int) as i64,
        g: fx_mul_s(a.g as int, b.g as int) as i64,
        b: fx_mul_s(a.b as int, b.b as int) as i64,
    }
}

/// The color scaled by one scalar, for in-range values.
pub open spec fn rgb_scale_s(c: Rgb, s: int) -> Rgb {
    Rgb {
        r: fx_mul_s(c.r as int, s) as i64,
        g: fx_mul_s(c.g as int, s) as i64,
        b: fx_mul_s(c.b as int, s) as i64,
    }
}

/// Every channel clamped into `[0, SCALE]`.
pub open spec fn rgb_clamp_s(c: Rgb) -> Rgb {
    Rgb {
        r: clamp_s(c.r as int, 0, SCALE as int) as i64,
        g: clamp_s(c.g as int, 0, SCALE as int) as i64,
        b: clamp_s(c.b as int, 0, SCALE as int) as i64,
    }
}

impl Rgb {
    pub fn new(r: i64, g: i64, b: i64) -> (c: Self)
        ensures
            c == (Rgb { r, g, b }),
    {
        Rgb { r, g, b }
    }

    /// Truncate all channels so that their values are within `[0, SCALE]`,
    /// the unit intensity range.
    pub fn clamp_to_unit(self) -> (c: Self)
        ensures
            c == rgb_clamp_s(self),
            0 <= c.r <= SCALE,
            0 <= c.g <= SCALE,
            0 <= c.b <= SCALE,
    {
        Rgb {
            r: fx_clamp(self.r, 0, SCALE),
            g: fx_clamp(self.g, 0, SCALE),
            b: fx_clamp(self.b, 0, SCALE),
        }
    }

    /// Channelwise sum.
    pub fn add(self, rhs: Self) -> (c: Self)
        requires
            i64::MIN <= self.r + rhs.r <= i64::MAX,
            i64::MIN <= self.g + rhs.g <= i64::MAX,
            i64::MIN <= self.b + rhs.b <= i64::MAX,
        ensures
            c.r == self.r + rhs.r,
            c.g == self.g + rhs.g,
            c.b == self.b + rhs.b,
            c == rgb_add_s(self, rhs),
    {
        Rgb { r: self.r + rhs.r, g: self.g + rhs.g, b: self.b + rhs.b }
    }

    /// Channelwise product.
    pub fn mul(self, rhs: Self) -> (c: Self)
        requires
            i64::MIN <= fx_mul_s(self.r as int, rhs.r as int) <= i64::MAX,
            i64::MIN <= fx_mul_s(self.g as int, rhs.g as int) <= i64::MAX,
            i64::MIN <= fx_mul_s(self.b as int, rhs.b as int) <= i64::MAX,
        ensures
            c.r == fx_mul_s(self.r as int, rhs.r as int),
            c.g == fx_mul_s(self.g as int, rhs.g as int),
            c.b == fx_mul_s(self.b as int, rhs.b as int),
            c == rgb_mul_s(self, rhs),
    {
        Rgb { r: fx_mul(self.r, rhs.r), g: fx_mul(self.g, rhs.g), b: fx_mul(self.b, rhs.b) }
    }

    /// The color scaled by one scalar.
    pub fn scale(self, s: i64) -> (c: Self)
        requires
            i64::MIN <= fx_mul_s(self.r as int, s as int) <= i64::MAX,
            i64::MIN <= fx_mul_s(self.g as int, s as int) <= i64::MAX,
            i64::MIN <= fx_mul_s(self.b as int, s as int) <= i64::MAX,
        ensures
            c.r == fx_mul_s(self.r as int, s as int),
            c.g == fx_mul_s(self.g as int, s as int),
            c.b == fx_mul_s(self.b as int, s as int),
            c == rgb_scale_s(self, s as int),
    {
        Rgb { r: fx_mul(self.r, s), g: fx_mul(self.g, s), b: fx_mul(self.b, s) }
    }

    /// Channelwise sum in place.
    pub fn add_assign(&mut self, other: Self)
        requires
            i64::MIN <= old(self).r + other.r <= i64::MAX,
            i64::MIN <= old(self).g + other.g <= i64::MAX,
            i64::MIN <= old(self).b + other.b <= i64::MAX,
        ensures
            final(self).r == old(self).r + other.r,
            final(self).g == old(self).g + other.g,
            final(self).b == old(self).b + other.b,
    {
        self.r = self.r + other.r;
        self.g = self.g + other.g;
        self.b = self.b + other.b;
    }
}

} // verus!
