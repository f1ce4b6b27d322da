//! Ray-shape intersection scenarios.

use ray_core::fx::SCALE;
use ray_core::point3::Point3;
use ray_core::ray::Ray;
use ray_core::sphere::Sphere;
use ray_core::triangle::Triangle;
use ray_core::vec3::Vec3;

fn fx(x: i64) -> i64 {
    x * SCALE
}

#[test]
fn intersect() {
    let ray1 = Ray { p: Point3::new(0, 0, 0), d: Vec3::new(0, 0, fx(1)) };

    let triangle1 = Triangle {
        p0: Point3::new(fx(-1), fx(-1), fx(2)),
        p1: Point3::new(fx(1), fx(-1), fx(2)),
        p2: Point3::new(0, fx(1), fx(2)),
    };

    match triangle1.intersect(&ray1) {
        Some((_, p, n)) => {
            assert_eq!(p, Point3::new(0, 0, fx(2)));
            assert_eq!(n, Vec3::new(0, 0, fx(-1)));
        },
        None => assert!(false),
    }

    let triangle2 = Triangle {
        p0: Point3::new(fx(-1), fx(-1), fx(-2)),
        p1: Point3::new(fx(1), fx(-1), fx(-2)),
        p2: Point3::new(0, fx(1), fx(-2)),
    };

    match triangle2.intersect(&ray1) {
        Some(_) => assert!(false),
        None => assert!(true),
    }
}

#[test]
fn intersect_no_intersection() {
    let triangle = Triangle {
        p0: Point3::new(fx(-1), fx(-1), fx(2)),
        p1: Point3::new(fx(1), fx(-1), fx(2)),
        p2: Point3::new(0, fx(1), fx(2)),
    };

    let ray1 = Ray { p: Point3::new(fx(-2), fx(2), 0), d: Vec3::new(0, 0, fx(1)) };
    match triangle.intersect(&ray1) {
        Some(_) => assert!(false),
        None => assert!(true),
    }

    let ray2 = Ray { p: Point3::new(fx(2), fx(2), 0), d: Vec3::new(0, 0, fx(1)) };
    match triangle.intersect(&ray2) {
        Some(_) => assert!(false),
        None => assert!(true),
    }

    let ray3 = Ray { p: Point3::new(0, fx(-2), 0), d: Vec3::new(0, 0, fx(1)) };
    match triangle.intersect(&ray3) {
        Some(_) => assert!(false),
        None => assert!(true),
    }
}

#[test]
fn sphere_axis_hit() {
    // A head-on hit: the nearer surface point and its outward normal,
    // which opposes the ray.
    let sphere = Sphere { c: Point3::new(0, 0, fx(10)), r: fx(5) };
    let ray = Ray { p: Point3::new(0, 0, fx(1)), d: Vec3::new(0, 0, fx(1)) };
    match sphere.intersect(&ray) {
        Some((t, p, n)) => {
            assert_eq!(t, fx(4));
            assert_eq!(p, Point3::new(0, 0, fx(5)));
            assert_eq!(n, Vec3::new(0, 0, fx(-1)));
        },
        None => assert!(false),
    }
}

#[test]
fn sphere_behind_origin_is_missed() {
    // Both roots are negative: the sphere lies behind the ray.
    let sphere = Sphere { c: Point3::new(0, 0, fx(10)), r: fx(5) };
    let ray = Ray { p: Point3::new(0, 0, fx(20)), d: Vec3::new(0, 0, fx(1)) };
    assert!(sphere.intersect(&ray).is_none());
}

#[test]
fn sphere_offset_ray_misses() {
    let sphere = Sphere { c: Point3::new(0, 0, fx(10)), r: fx(5) };
    let ray = Ray { p: Point3::new(0, fx(20), 0), d: Vec3::new(0, 0, fx(1)) };
    assert!(sphere.intersect(&ray).is_none());
}

#[test]
fn sphere_from_center_selects_smaller_root() {
    // From the center both roots have equal magnitude; the smaller one is
    // negative, so no hit is reported. The nearest root is selected, not
    // the nearest nonnegative one.
    let sphere = Sphere { c: Point3::new(0, 0, fx(10)), r: fx(5) };
    let ray = Ray { p: Point3::new(0, 0, fx(10)), d: Vec3::new(0, 0, fx(1)) };
    assert!(sphere.intersect(&ray).is_none());
}

#[test]
fn parallel_ray_misses_triangle() {
    // A ray inside the triangle's plane makes the barycentric denominator
    // zero and reports no hit.
    let triangle = Triangle {
        p0: Point3::new(fx(-1), fx(-1), fx(2)),
        p1: Point3::new(fx(1), fx(-1), fx(2)),
        p2: Point3::new(0, fx(1), fx(2)),
    };
    let ray = Ray { p: Point3::new(fx(-5), 0, fx(2)), d: Vec3::new(fx(1), 0, 0) };
    assert!(triangle.intersect(&ray).is_none());
}
