//! Shading integrator scenarios: occlusion, reflection depth, and exact
//! direct lighting.

use ray_core::fx::SCALE;
use ray_core::integrator::{li, Material, Object};
use ray_core::point3::Point3;
use ray_core::ray::Ray;
use ray_core::rgb::Rgb;
use ray_core::shape::Shape;
use ray_core::sphere::Sphere;
use ray_core::triangle::Triangle;
use ray_core::vec3::Vec3;

fn fx(x: i64) -> i64 {
    x * SCALE
}

fn big_triangle(z: i64) -> Triangle {
    Triangle {
        p0: Point3::new(fx(-10), fx(-10), z),
        p1: Point3::new(fx(10), fx(-10), z),
        p2: Point3::new(0, fx(10), z),
    }
}

fn plain_material(ambient: Rgb) -> Material {
    Material {
        ambient,
        diffuse: Rgb::new(32768, 32768, 32768),
        specular: Rgb::new(SCALE, SCALE, SCALE),
        reflect: false,
    }
}

#[test]
fn ambient_only_when_light_occluded() {
    // The only light sits behind an occluding plane: the final color is
    // the hit material's ambient term alone.
    let ambient = Rgb::new(6554, 13107, 19661);
    let objs = vec![
        Object { shape: Shape::Triangle(big_triangle(fx(2))), material: plain_material(ambient) },
        Object {
            shape: Shape::Triangle(big_triangle(fx(-3))),
            material: plain_material(Rgb::new(0, 0, 0)),
        },
    ];
    let lights = vec![Point3::new(0, 0, fx(-6))];
    let ray = Ray { p: Point3::new(0, 0, 0), d: Vec3::new(0, 0, fx(1)) };
    let c = li(&ray, &objs, Point3::new(0, 0, fx(-10)), &lights, 1);
    assert_eq!(c, ambient);
}

#[test]
fn occluder_beyond_light_still_shadows() {
    // The shadow test is unbounded along the ray: a plane farther away
    // than the light still darkens it, leaving the ambient term alone.
    let ambient = Rgb::new(6554, 13107, 19661);
    let objs = vec![
        Object { shape: Shape::Triangle(big_triangle(fx(2))), material: plain_material(ambient) },
        Object {
            shape: Shape::Triangle(big_triangle(fx(-6))),
            material: plain_material(Rgb::new(0, 0, 0)),
        },
    ];
    let lights = vec![Point3::new(0, 0, fx(-3))];
    let ray = Ray { p: Point3::new(0, 0, 0), d: Vec3::new(0, 0, fx(1)) };
    let c = li(&ray, &objs, Point3::new(0, 0, fx(-10)), &lights, 1);
    assert_eq!(c, ambient);
}

fn reflective_scene() -> Vec<Object> {
    vec![
        Object {
            shape: Shape::Sphere(Sphere { c: Point3::new(0, 0, fx(10)), r: fx(5) }),
            material: Material {
                ambient: Rgb::new(6554, 13107, 19661),
                diffuse: Rgb::new(32768, 32768, 32768),
                specular: Rgb::new(SCALE, SCALE, SCALE),
                reflect: true,
            },
        },
        Object {
            shape: Shape::Triangle(big_triangle(fx(-5))),
            material: plain_material(Rgb::new(16384, 8192, 4096)),
        },
    ]
}

#[test]
fn no_reflection_at_depth_zero() {
    // With the depth budget exhausted the reflective surface contributes
    // only its direct lighting, although a mirror bounce would land on the
    // bright wall behind the camera.
    let objs = reflective_scene();
    let lights = vec![Point3::new(0, fx(10), 0)];
    let cam = Point3::new(0, fx(10), fx(-10));
    let ray = Ray { p: Point3::new(0, 0, 0), d: Vec3::new(0, 0, fx(1)) };
    let c0 = li(&ray, &objs, cam, &lights, 0);
    assert_eq!(c0, Rgb::new(21208, 27761, 34315));
}

#[test]
fn one_bounce_adds_weighted_wall_color() {
    let objs = reflective_scene();
    let lights = vec![Point3::new(0, fx(10), 0)];
    let cam = Point3::new(0, fx(10), fx(-10));
    let ray = Ray { p: Point3::new(0, 0, 0), d: Vec3::new(0, 0, fx(1)) };
    let c1 = li(&ray, &objs, cam, &lights, 1);
    assert_eq!(c1, Rgb::new(30519, 34614, 39940));
    // A second depth unit changes nothing here: the bounce target is not
    // reflective.
    let c2 = li(&ray, &objs, cam, &lights, 2);
    assert_eq!(c2, c1);
}

#[test]
fn black_when_nothing_is_hit() {
    let objs = reflective_scene();
    let lights = vec![Point3::new(0, fx(10), 0)];
    let cam = Point3::new(0, fx(10), fx(-10));
    let ray = Ray { p: Point3::new(0, 0, 0), d: Vec3::new(0, fx(1), 0) };
    assert_eq!(li(&ray, &objs, cam, &lights, 1), Rgb::new(0, 0, 0));
}

#[test]
fn head_on_lighting_sums_all_terms() {
    // Light, camera and normal are aligned: the diffuse and specular
    // coefficients are exactly one, so the color is the exact sum of the
    // three material terms.
    let mat = Material {
        ambient: Rgb::new(3277, 3277, 3277),
        diffuse: Rgb::new(32768, 16384, 8192),
        specular: Rgb::new(4096, 2048, 1024),
        reflect: false,
    };
    let objs = vec![Object { shape: Shape::Triangle(big_triangle(fx(2))), material: mat }];
    let lights = vec![Point3::new(0, 0, fx(-6))];
    let ray = Ray { p: Point3::new(0, 0, 0), d: Vec3::new(0, 0, fx(1)) };
    let c = li(&ray, &objs, Point3::new(0, 0, 0), &lights, 1);
    assert_eq!(c, Rgb::new(40141, 21709, 12493));
}
