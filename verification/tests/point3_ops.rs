//! Point operations: position arithmetic and its interplay with vectors.

use ray_core::fx::SCALE;
use ray_core::point3::Point3;
use ray_core::vec3::Vec3;

fn fx(x: i64) -> i64 {
    x * SCALE
}

#[test]
fn point3_test_point() {
    let p = Point3::new(0, 0, 0);
    assert_eq!(p, Point3::zeroes());
}

#[test]
fn point_default_is_origin() {
    let p: Point3 = Default::default();
    assert_eq!(p, Point3::zeroes());
}

#[test]
fn point_minus_point_is_vector() {
    let a = Point3::new(fx(3), fx(1), fx(-2));
    let b = Point3::new(fx(1), fx(1), fx(2));
    assert_eq!(a.sub(b), Vec3::new(fx(2), 0, fx(-4)));
}

#[test]
fn point_plus_vector_moves() {
    let p = Point3::new(fx(1), fx(2), fx(3));
    let v = Vec3::new(fx(-1), 0, fx(4));
    assert_eq!(p.add_vec(v), Point3::new(0, fx(2), fx(7)));
}

#[test]
fn point_scalar_and_index_ops() {
    let p = Point3::new(fx(2), fx(-4), fx(6));
    assert_eq!(p.mul(fx(2)), Point3::new(fx(4), fx(-8), fx(12)));
    assert_eq!(p.div(fx(2)), Point3::new(fx(1), fx(-2), fx(3)));
    assert_eq!(p.neg(), Point3::new(fx(-2), fx(4), fx(-6)));
    assert_eq!(p.index(0), fx(2));
    assert_eq!(p.index(1), fx(-4));
    assert_eq!(p.index(2), fx(6));
    let mut q = p;
    q.set(2, fx(9));
    assert_eq!(q, Point3::new(fx(2), fx(-4), fx(9)));
}
