//! Matrix products.

use ray_core::fx::SCALE;
use ray_core::mat4::Mat4;

fn fx(x: i64) -> i64 {
    x * SCALE
}

fn diag(v: i64) -> Mat4 {
    Mat4::new(v, 0, 0, 0, 0, v, 0, 0, 0, 0, v, 0, 0, 0, 0, v)
}

#[test]
fn multiply_diagonals() {
    let a = diag(fx(2));
    let b = diag(fx(3));
    let c = Mat4::multiply(&a, &b);
    assert_eq!(c, diag(fx(6)));
}

#[test]
fn multiply_identity_is_neutral() {
    let id = diag(fx(1));
    let m = Mat4::new(
        fx(1), fx(2), fx(3), fx(4),
        fx(5), fx(6), fx(7), fx(8),
        fx(9), fx(10), fx(11), fx(12),
        0, 0, 0, fx(1),
    );
    assert_eq!(Mat4::multiply(&id, &m), m);
    assert_eq!(Mat4::multiply(&m, &id), m);
}

#[test]
fn multiply_order_matters() {
    let a = Mat4::new(
        0, fx(1), 0, 0,
        fx(1), 0, 0, 0,
        0, 0, fx(1), 0,
        0, 0, 0, fx(1),
    );
    let b = Mat4::new(
        fx(2), 0, 0, 0,
        0, fx(1), 0, 0,
        0, 0, fx(1), 0,
        0, 0, 0, fx(1),
    );
    let ab = Mat4::multiply(&a, &b);
    let ba = Mat4::multiply(&b, &a);
    assert_ne!(ab, ba);
    assert_eq!(ab.a01, fx(1));
    assert_eq!(ba.a01, fx(2));
}
