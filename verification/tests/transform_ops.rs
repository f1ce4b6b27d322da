//! Affine transforms: rotations, translations, composition and the
//! translation round trip.

use ray_core::fx::SCALE;
use ray_core::point3::Point3;
use ray_core::transform::Transform;
use ray_core::trig::{cos_deg, sin_deg};
use ray_core::vec3::Vec3;

fn fx(x: i64) -> i64 {
    x * SCALE
}

fn vec_close(v1: &Vec3, v2: &Vec3) -> bool {
    // One ten-thousandth of a world unit, in scalar units.
    let epsilon: i64 = 7;
    (v1.x - v2.x).abs() <= epsilon && (v1.y - v2.y).abs() <= epsilon
        && (v1.z - v2.z).abs() <= epsilon
}

#[test]
fn transform_test() {
    let transform1 = Transform::rotate(fx(90), Vec3::new(0, fx(1), 0));
    let v1 = Vec3::new(0, 0, fx(1));
    assert!(vec_close(&transform1.apply_vec(&v1), &Vec3::new(fx(1), 0, 0)));

    let transform2 = Transform::rotate(fx(90), Vec3::new(fx(1), 0, 0));
    let v2 = Vec3::new(0, fx(1), 0);
    assert!(vec_close(&transform2.apply_vec(&v2), &Vec3::new(0, 0, fx(1))));

    let transform3 = Transform::rotate(fx(90), Vec3::new(0, 0, fx(1)));
    let v3 = Vec3::new(fx(1), 0, 0);
    assert!(vec_close(&transform3.apply_vec(&v3), &Vec3::new(0, fx(1), 0)));
}

#[test]
fn quarter_turn_is_exact() {
    // Quadrant boundaries are exact in this representation, so the rotated
    // axis lands exactly on the target axis.
    let t = Transform::rotate(fx(90), Vec3::new(0, fx(1), 0));
    assert_eq!(t.apply_vec(&Vec3::new(0, 0, fx(1))), Vec3::new(fx(1), 0, 0));
}

#[test]
fn trig_quadrants_are_exact() {
    assert_eq!(sin_deg(0), 0);
    assert_eq!(cos_deg(0), SCALE);
    assert_eq!(sin_deg(fx(90)), SCALE);
    assert_eq!(cos_deg(fx(90)), 0);
    assert_eq!(sin_deg(fx(180)), 0);
    assert_eq!(cos_deg(fx(180)), -SCALE);
    assert_eq!(sin_deg(fx(270)), -SCALE);
    assert_eq!(cos_deg(fx(270)), 0);
    assert_eq!(sin_deg(fx(-90)), -SCALE);
    // Half of one, up to one unit in the last place.
    assert_eq!(sin_deg(fx(30)), 32767);
}

#[test]
fn translate_round_trip_returns_point() {
    let d = Vec3::new(fx(5), fx(-3), fx(11));
    let there = Transform::translate(d);
    let back = Transform::translate(d.neg());
    let round = there.compose(&back);
    let p = Point3::new(fx(7), fx(-2), fx(13));
    assert_eq!(round.apply_pt(&p), p);
    let q = Point3::new(-12345, 678, -9);
    assert_eq!(round.apply_pt(&q), q);
}

#[test]
fn third_turn_about_diagonal_permutes_axes() {
    // Rotating a third of a turn about the cube diagonal carries one axis
    // onto the next, up to rounding.
    let t = Transform::rotate(fx(120), Vec3::new(fx(1), fx(1), fx(1)));
    let r = t.apply_vec(&Vec3::new(fx(1), 0, 0));
    assert!(vec_close(&r, &Vec3::new(0, fx(1), 0)));
}

#[test]
fn eighth_turn_splits_axis_evenly() {
    let t = Transform::rotate(fx(45), Vec3::new(0, 0, fx(1)));
    let r = t.apply_vec(&Vec3::new(fx(1), 0, 0));
    // Both components land within a few scalar units of one over the
    // square root of two.
    assert!((r.x - 46341).abs() <= 2);
    assert!((r.y - 46341).abs() <= 2);
    assert_eq!(r.z, 0);
}

#[test]
fn identity_leaves_point_in_place() {
    let id = Transform::identity();
    let p = Point3::new(fx(1), fx(2), fx(-3));
    assert_eq!(id.apply_pt(&p), p);
    assert_eq!(id.apply_vec(&Vec3::new(fx(4), 0, fx(-5))), Vec3::new(fx(4), 0, fx(-5)));
}

#[test]
fn translate_moves_points_not_vectors() {
    let t = Transform::translate_pt(Point3::new(fx(1), fx(2), fx(3)));
    let p = Point3::new(fx(10), 0, 0);
    assert_eq!(t.apply_pt(&p), Point3::new(fx(11), fx(2), fx(3)));
    // The linear part ignores the translation column.
    let v = Vec3::new(fx(10), 0, 0);
    assert_eq!(t.apply_vec(&v), v);
}
