//! Vector and point algebra, exercised through the scalar representation:
//! an integer `x` stands for the world value `x / 65536`.

use ray_core::fx::SCALE;
use ray_core::point3::Point3;
use ray_core::vec3::Vec3;

fn fx(x: i64) -> i64 {
    x * SCALE
}

#[test]
fn test_lengths() {
    let v = Vec3::new(0, 0, 0);
    assert_eq!(v.len_sq(), 0);
    assert_eq!(v.len(), 0);

    let v = Vec3::new(fx(1), fx(-2), fx(3));
    assert_eq!(v.len_sq(), fx(14));
    // The scaled square root of fourteen, rounded down.
    assert_eq!(v.len(), 245213);

    // A normalized vector has length one up to a few units in the last
    // place.
    let n = Vec3::normalize(v);
    assert!((n.len() - SCALE).abs() <= 4);
    assert_eq!(n.len(), 65534);
}

#[test]
fn test_arithmetic_ops() {
    let v1 = Vec3::new(fx(1), fx(-1), 0);
    let v2 = Vec3::new(fx(-1), fx(1), 0);
    let v3 = v1.neg();

    let v = v1.add(v2);
    assert_eq!(v, Vec3::zeroes());

    let mut v_mut = v1;
    v_mut.add_assign(v2);
    assert_eq!(v_mut, Vec3::zeroes());

    let v = v1.sub(v1);
    assert_eq!(v, Vec3::zeroes());

    let mut v_mut = v1;
    v_mut.sub_assign(v1);
    assert_eq!(v_mut, Vec3::zeroes());

    let v = v1.add(v3);
    assert_eq!(v, Vec3::zeroes());
}

#[test]
fn test_scalar_ops() {
    let v1 = Vec3::new(fx(1), fx(-1), 0);

    let v = v1.mul(fx(2));
    assert_eq!(v, Vec3::new(fx(2), fx(-2), 0));

    let mut v_mut = v1;
    v_mut.mul_assign(fx(2));
    assert_eq!(v_mut, Vec3::new(fx(2), fx(-2), 0));

    let v = v1.div(fx(2));
    assert_eq!(v, Vec3::new(SCALE / 2, -SCALE / 2, 0));

    let mut v_mut = v1;
    v_mut.div_assign(fx(2));
    assert_eq!(v, Vec3::new(SCALE / 2, -SCALE / 2, 0));
}

#[test]
fn test_index_ops() {
    let v1 = Vec3::new(fx(1), fx(-1), 0);

    assert_eq!(v1.index(0), fx(1));
    assert_eq!(v1.index(1), fx(-1));
    assert_eq!(v1.index(2), 0);

    let mut v_mut = v1;
    v_mut.set(0, 0);
    v_mut.set(1, fx(1));
    v_mut.set(2, fx(-1));
    assert_eq!(v_mut.index(0), 0);
    assert_eq!(v_mut.index(1), fx(1));
    assert_eq!(v_mut.index(2), fx(-1));
}

#[test]
fn test_cmp_ops() {
    let v1 = Vec3::new(0, fx(1), 0);
    let v2 = Vec3::new(0, fx(1), fx(1));
    let v3 = Vec3::new(0, fx(1), 0);

    assert!(v1 != v2);
    assert!(v1 == v3);
}

#[test]
fn test_dot_prod() {
    let v1 = Vec3::new(fx(-1), 0, fx(1));
    let v2 = Vec3::new(fx(1), fx(1), fx(2));

    assert_eq!(Vec3::dot(v1, v2), fx(1));
}

#[test]
fn test_cross_prod() {
    let v1 = Vec3::new(fx(1), 0, 0);
    let v2 = Vec3::new(0, 0, fx(1));

    assert_eq!(Vec3::cross(v1, v2), Vec3::new(0, fx(-1), 0));
    assert_eq!(Vec3::cross(v2, v1), Vec3::new(0, fx(1), 0));

    assert_eq!(Vec3::cross(v1, v1), Vec3::zeroes());
}

#[test]
fn geometry_test_point() {
    let p = Point3::new(0, 0, 0);
    assert_eq!(p, Point3::zeroes());
}
