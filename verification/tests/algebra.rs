//! Vector and ray algebra, on fixed-point values scaled by 65536.

use raytrace::ray::Ray;
use raytrace::vector3d::{unit_vector, Vector3D};

const S: i64 = 65536;

fn v123() -> Vector3D {
    Vector3D::new(S, 2 * S, 3 * S)
}

fn v456() -> Vector3D {
    Vector3D::new(4 * S, 5 * S, 6 * S)
}

#[test]
fn test_component_getters() {
    let v = v123();
    assert_eq!(v.x(), S);
    assert_eq!(v.y(), 2 * S);
    assert_eq!(v.z(), 3 * S);
    assert_eq!(v.r(), S);
    assert_eq!(v.g(), 2 * S);
    assert_eq!(v.b(), 3 * S);
}

#[test]
fn lib_test_length() {
    // |(1,2,3)| = sqrt(14): the fixed-point floor square root of 14.0.
    let v = v123();
    assert_eq!(v.length(), 245213);
}

#[test]
fn vector3d_test_length() {
    let v = v123();
    assert_eq!(v.length(), 245213);
}

#[test]
fn vector3d_test_squared_length() {
    let v = v123();
    assert_eq!(v.squared_length(), 14 * S);
}

#[test]
fn vector3d_test_make_unit_vector() {
    let mut v = v123();
    v.make_unit_vector();
    let expected = Vector3D::new(17515, 35030, 52545);
    assert_eq!(v, expected);
    let v = v123();
    assert_eq!(unit_vector(&v), expected);
}

#[test]
fn vector3d_test_dot() {
    let v = v123();
    assert_eq!(v.dot(&v), 14 * S);
}

#[test]
fn vector3d_test_cross() {
    let v = v123();
    let v2 = v456();
    let v3 = Vector3D::new(-3 * S, 6 * S, -3 * S);
    assert_eq!(v.cross(&v2), v3);
}

#[test]
fn vector3d_test_addition() {
    let mut v = v123();
    let v2 = v456();
    let v3 = Vector3D::new(5 * S, 7 * S, 9 * S);
    assert_eq!(v.add(&v2), v3);
    v.add_assign(&v2);
    assert_eq!(v, v3);
}

#[test]
fn vector3d_test_subtraction() {
    let mut v = v123();
    let v2 = v456();
    let v3 = Vector3D::new(-3 * S, -3 * S, -3 * S);
    assert_eq!(v.sub(&v2), v3);
    v.sub_assign(&v2);
    assert_eq!(v, v3);
}

#[test]
fn vector3d_test_multiplication() {
    let mut v = v123();
    let v2 = v456();
    let v3 = Vector3D::new(4 * S, 10 * S, 18 * S);
    let k = 10 * S;
    let v4 = Vector3D::new(10 * S, 20 * S, 30 * S);
    assert_eq!(v.mul(&v2), v3);
    assert_eq!(v.mul_scalar(k), v4);
    v.mul_assign(&v2);
    assert_eq!(v, v3);
    let v = v123();
    assert_eq!(v.mul_scalar(k), v4);
}

#[test]
fn vector3d_test_division() {
    let mut v = v123();
    let v2 = v456();
    // 1/4, 2/5, 3/6 truncated to fixed point.
    let v3 = Vector3D::new(16384, 26214, 32768);
    let k = 10 * S;
    // 0.1, 0.2, 0.3 truncated to fixed point.
    let v4 = Vector3D::new(6553, 13107, 19660);
    assert_eq!(v.div(&v2), v3);
    assert_eq!(v.div_scalar(k), v4);
    v.div_assign(&v2);
    assert_eq!(v, v3);
    let mut v = v123();
    v = v.div_scalar(k);
    assert_eq!(v, v4);
}

#[test]
fn unit_vector_has_nearly_unit_dot() {
    // unit(v) . unit(v) is 1.0 up to fixed-point rounding.
    for v in [
        v123(),
        Vector3D::new(-7 * S, 2 * S, 11 * S),
        Vector3D::new(S / 3, -S / 5, S / 7),
        Vector3D::new(1000 * S, -1, 3),
    ] {
        let u = unit_vector(&v);
        let d = u.dot(&u);
        assert!((d - S).abs() <= 16, "dot of unit with itself was {d}");
    }
}

#[test]
fn test_negation() {
    let v = v123();
    assert_eq!(v.neg(), Vector3D::new(-S, -2 * S, -3 * S));
}

#[test]
fn test_constructor() {
    let v1 = Vector3D::new(S, S, S);
    let v2 = Vector3D::new(2 * S, 2 * S, 2 * S);
    let ray = Ray::new(v1, v2);
    assert_eq!(ray.origin(), v1);
    assert_eq!(ray.direction(), v2);
}

#[test]
fn test_point_at_parameter() {
    let v1 = Vector3D::new(S, S, S);
    let v2 = Vector3D::new(2 * S, 2 * S, 2 * S);
    let ray = Ray::new(v1, v2);
    let v3 = Vector3D::new(3 * S, 3 * S, 3 * S);
    assert_eq!(ray.point_at_parameter(S), v3);
}
