//! The fixed-point scalar layer: products and quotients round toward
//! zero, roots round down, clamps and powers hit their edges.

use ray_core::fx::{fx_clamp, fx_div, fx_mul, fx_pow, fx_sqrt, SCALE};
use ray_core::rgb::Rgb;

#[test]
fn mul_rounds_toward_zero() {
    assert_eq!(fx_mul(3 * SCALE / 2, SCALE / 2), 3 * SCALE / 4);
    assert_eq!(fx_mul(1, 1), 0);
    assert_eq!(fx_mul(-1, 1), 0);
    assert_eq!(fx_mul(-3 * SCALE / 2, SCALE / 2), -(3 * SCALE / 4));
}

#[test]
fn div_rounds_toward_zero() {
    assert_eq!(fx_div(SCALE, 3 * SCALE), 21845);
    assert_eq!(fx_div(-SCALE, 3 * SCALE), -21845);
    assert_eq!(fx_div(SCALE, -(3 * SCALE)), -21845);
    assert_eq!(fx_div(-SCALE, -(3 * SCALE)), 21845);
}

#[test]
fn sqrt_rounds_down() {
    assert_eq!(fx_sqrt(0), 0);
    assert_eq!(fx_sqrt(4 * SCALE), 2 * SCALE);
    assert_eq!(fx_sqrt(2 * SCALE), 92681);
}

#[test]
fn pow_edges() {
    assert_eq!(fx_pow(SCALE, 100), SCALE);
    assert_eq!(fx_pow(0, 100), 0);
    assert_eq!(fx_pow(SCALE / 2, 1), SCALE / 2);
    assert_eq!(fx_pow(SCALE / 2, 2), SCALE / 4);
}

#[test]
fn clamp_edges() {
    assert_eq!(fx_clamp(-5, 0, SCALE), 0);
    assert_eq!(fx_clamp(0, 0, SCALE), 0);
    assert_eq!(fx_clamp(SCALE, 0, SCALE), SCALE);
    assert_eq!(fx_clamp(SCALE + 1, 0, SCALE), SCALE);
    assert_eq!(fx_clamp(12345, 0, SCALE), 12345);
}

#[test]
fn rgb_arithmetic_and_clamp() {
    let a = Rgb::new(SCALE, -7, 2 * SCALE);
    let clamped = a.clamp_to_unit();
    assert_eq!(clamped, Rgb::new(SCALE, 0, SCALE));

    let b = Rgb::new(100, 200, 300).add(Rgb::new(1, 2, 3));
    assert_eq!(b, Rgb::new(101, 202, 303));

    let c = Rgb::new(SCALE, SCALE / 2, SCALE / 4).mul(Rgb::new(SCALE / 2, SCALE / 2, SCALE / 2));
    assert_eq!(c, Rgb::new(SCALE / 2, SCALE / 4, SCALE / 8));

    let d = Rgb::new(SCALE, SCALE / 2, 0).scale(SCALE / 4);
    assert_eq!(d, Rgb::new(SCALE / 4, SCALE / 8, 0));

    let mut e = Rgb::new(1, 2, 3);
    e.add_assign(Rgb::new(10, 20, 30));
    assert_eq!(e, Rgb::new(11, 22, 33));
}
