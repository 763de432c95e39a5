// Vector, color and ray arithmetic on concrete fixed-point values
// (4096 stands for 1.0).

use raytracer::color::Color;
use raytracer::ray::Ray;
use raytracer::vec3::Vector3D;

#[test]
fn vector_add_sub_neg() {
    let a = Vector3D::new(4096, -8192, 12288);
    let b = Vector3D::new(2048, 2048, -2048);
    assert_eq!(a.add(&b), Vector3D::new(6144, -6144, 10240));
    assert_eq!(a.sub(&b), Vector3D::new(2048, -10240, 14336));
    assert_eq!(a.neg(), Vector3D::new(-4096, 8192, -12288));
}

#[test]
fn vector_scale_exact() {
    let a = Vector3D::new(4096, 2048, -8192);
    assert_eq!(a.scale(8192), Vector3D::new(8192, 4096, -16384));
}

#[test]
fn vector_scale_rounds_toward_zero() {
    // -4097 * 0.5 is -2048.5 in real arithmetic; rounding toward zero keeps -2048
    assert_eq!(Vector3D::new(-4097, 0, 0).scale(2048).x, -2048);
    assert_eq!(Vector3D::new(4097, 0, 0).scale(2048).x, 2048);
}

#[test]
fn vector_dot() {
    // (1,2,3) . (4,5,6) = 32
    let a = Vector3D::new(4096, 8192, 12288);
    let b = Vector3D::new(16384, 20480, 24576);
    assert_eq!(a.dot(&b), 131072);
}

#[test]
fn vector_cross_right_handed() {
    let x = Vector3D::new(4096, 0, 0);
    let y = Vector3D::new(0, 4096, 0);
    assert_eq!(x.cross(&y), Vector3D::new(0, 0, 4096));
    assert_eq!(y.cross(&x), Vector3D::new(0, 0, -4096));
}

#[test]
fn vector_length_pythagorean() {
    // |(3,4,0)| = 5
    assert_eq!(Vector3D::new(12288, 16384, 0).length(), 20480);
    assert_eq!(Vector3D::new(0, 0, -4096).length(), 4096);
}

#[test]
fn vector_normalize_truncates() {
    // (3,4,0)/5 = (0.6, 0.8, 0), truncated to the fixed-point grid
    let n = Vector3D::new(12288, 16384, 0).normalize();
    assert_eq!(n, Vector3D::new(2457, 3276, 0));
}

#[test]
fn normalize_of_unit_vector_is_identity() {
    // unit vectors (fixed-point length exactly 4096) come back unchanged,
    // so their normalized length is exactly one
    let axis = Vector3D::new(0, 0, 4096);
    assert_eq!(axis.normalize(), axis);
    assert_eq!(axis.normalize().length(), 4096);
    let oblique = Vector3D::new(2458, 3277, 0);
    assert_eq!(oblique.length(), 4096);
    assert_eq!(oblique.normalize(), oblique);
    assert_eq!(oblique.normalize().length(), 4096);
}

#[test]
fn normalize_or_zero_keeps_zero() {
    let z = Vector3D::new(0, 0, 0);
    assert_eq!(z.normalize_or_zero(), z);
}

#[test]
fn color_add_and_scale() {
    let a = Color::new(4096, 2048, 1024);
    let b = Color::new(100, 200, 300);
    assert_eq!(a.add(&b), Color::new(4196, 2248, 1324));
    assert_eq!(a.scale(2048), Color::new(2048, 1024, 512));
}

#[test]
fn ray_construction_normalizes_direction() {
    let r = Ray::new(Vector3D::new(0, 0, 0), Vector3D::new(0, 0, 8192));
    assert_eq!(r.direction, Vector3D::new(0, 0, 4096));
}

#[test]
fn ray_point_at_zero_is_origin() {
    let origin = Vector3D::new(4096, 8192, 12288);
    let r = Ray::new(origin, Vector3D::new(0, 0, 4096));
    assert_eq!(r.point_at(0), origin);
}

#[test]
fn ray_point_at_walks_the_line() {
    let r = Ray::new(Vector3D::new(4096, 8192, 12288), Vector3D::new(0, 0, 4096));
    assert_eq!(r.point_at(8192), Vector3D::new(4096, 8192, 20480));
    assert_eq!(r.point_at(-4096), Vector3D::new(4096, 8192, 8192));
}
