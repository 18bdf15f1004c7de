use rpov::scalar::Scalar;
use rpov::shapes::{Shape, ShapeKind, sphere};
use rpov::transformations::{rotation_z, scaling, translation};
use rpov::tuples::{PointOrVector, Tuple4, point, vector};

fn sc(v: f64) -> Scalar {
    Scalar::from_raw((v * 1_000_000_000f64).round() as i64)
}

fn approx(a: Scalar, b: Scalar) -> bool {
    (a.raw - b.raw).abs() <= 10_000
}

fn check_tuple(actual: Tuple4, expected: Tuple4) {
    assert!(approx(actual.x, expected.x), "x: {} vs {}", actual.x.raw, expected.x.raw);
    assert!(approx(actual.y, expected.y), "y: {} vs {}", actual.y.raw, expected.y.raw);
    assert!(approx(actual.z, expected.z), "z: {} vs {}", actual.z.raw, expected.z.raw);
    assert!(approx(actual.w, expected.w), "w: {} vs {}", actual.w.raw, expected.w.raw);
    assert!(actual.is_point() == expected.is_point());
}

#[test]
fn test_normal_on_sphere_at_x_axis() {
    let s = sphere();
    let n = s.normal_at(&point(sc(1.0), sc(0.0), sc(0.0)));
    assert_eq!(n, vector(sc(1.0), sc(0.0), sc(0.0)));
}

#[test]
fn test_normal_on_sphere_at_y_axis() {
    let s = sphere();
    let n = s.normal_at(&point(sc(0.0), sc(1.0), sc(0.0)));
    assert_eq!(n, vector(sc(0.0), sc(1.0), sc(0.0)));
}

#[test]
fn test_normal_on_sphere_at_z_axis() {
    let s = sphere();
    let n = s.normal_at(&point(sc(0.0), sc(0.0), sc(1.0)));
    assert_eq!(n, vector(sc(0.0), sc(0.0), sc(1.0)));
}

#[test]
fn test_normal_on_sphere_at_nonaxial_point() {
    let s = sphere();
    let val = 3.0f64.sqrt() / 3.0;
    let n = s.normal_at(&point(sc(val), sc(val), sc(val)));
    check_tuple(n, vector(sc(val), sc(val), sc(val)));
}

#[test]
fn test_normal_is_normalized_vector() {
    let s = sphere();
    let val = 3.0f64.sqrt() / 3.0;
    let n = s.normal_at(&point(sc(val), sc(val), sc(val)));
    check_tuple(n, n.normalize());
}

#[test]
fn test_computing_normal_on_translated_sphere() {
    let s = Shape::with_transform(ShapeKind::Sphere, translation(sc(0.0), sc(1.0), sc(0.0)));
    let h = std::f64::consts::FRAC_1_SQRT_2;
    let n = s.normal_at(&point(sc(0.0), sc(1.0 + h), sc(-h)));
    check_tuple(n, vector(sc(0.0), sc(h), sc(-h)));
}

#[test]
fn test_computing_normal_on_transformed_sphere() {
    let pi = std::f64::consts::PI;
    let rz = rotation_z(sc((pi / 5.0).sin()), sc((pi / 5.0).cos()));
    let m = scaling(sc(1.0), sc(0.5), sc(1.0)).multiply_matrix(&rz);
    let s = Shape::with_transform(ShapeKind::Sphere, m);
    let val = 2.0f64.sqrt() / 2.0;
    let n = s.normal_at(&point(sc(0.0), sc(val), sc(-val)));
    check_tuple(n, vector(sc(0.0), sc(0.97014), sc(-0.24254)));
}
