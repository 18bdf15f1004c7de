use rpov::materials::Material;
use rpov::matrices::Matrix;
use rpov::scalar::Scalar;
use rpov::shapes::{Shape, ShapeKind, sphere};
use rpov::transformations::{rotation_z, scaling, translation};
use rpov::tuples::{PointOrVector, Tuple4, point, vector};

fn sc(v: f64) -> Scalar {
    Scalar::from_raw((v * 1_000_000_000f64).round() as i64)
}

fn approx(a: Scalar, b: Scalar) -> bool {
    (a.raw - b.raw).abs() <= 10_000
}

fn check_tuple(actual: Tuple4, expected: Tuple4) {
    assert!(approx(actual.x, expected.x), "x");
    assert!(approx(actual.y, expected.y), "y");
    assert!(approx(actual.z, expected.z), "z");
    assert!(approx(actual.w, expected.w), "w");
    assert!(actual.is_point() == expected.is_point());
}

#[test]
fn the_default_transformation() {
    let s = sphere();
    assert_eq!(s.transform, Matrix::identity(4));
}

#[test]
fn assigning_a_transformation() {
    let mut s = sphere();
    s.transform = translation(sc(2.0), sc(3.0), sc(4.0));
    assert_eq!(s.transform, translation(sc(2.0), sc(3.0), sc(4.0)));
}

#[test]
fn shapes_the_default_material() {
    let s = sphere();
    let m = s.material;
    assert_eq!(m, Material::new());
}

#[test]
fn assigning_a_material() {
    let mut s = sphere();
    let mut m = Material::new();
    m.ambient = sc(1.0);
    s.material = m.clone();
    assert_eq!(s.material, m);
}

#[test]
fn computing_the_normal_on_a_translated_shape() {
    let s = Shape::with_transform(ShapeKind::Sphere, translation(sc(0.0), sc(1.0), sc(0.0)));
    let h = std::f64::consts::FRAC_1_SQRT_2;
    let n = s.normal_at(&point(sc(0.0), sc(1.70711), sc(-h)));
    check_tuple(n, vector(sc(0.0), sc(h), sc(-h)));
}

#[test]
fn computing_the_normal_on_a_transformed_shape() {
    let pi = std::f64::consts::PI;
    let rz = rotation_z(sc((pi / 5.0).sin()), sc((pi / 5.0).cos()));
    let m = scaling(sc(1.0), sc(0.5), sc(1.0)).multiply_matrix(&rz);
    let s = Shape::with_transform(ShapeKind::Sphere, m);
    let val = 2.0f64.sqrt() / 2.0;
    let n = s.normal_at(&point(sc(0.0), sc(val), sc(-val)));
    check_tuple(n, vector(sc(0.0), sc(0.97014), sc(-0.24254)));
}

#[test]
fn intersecting_a_scaled_shape_with_a_ray() {
    let r = rpov::rays::ray(
        point(sc(0.0), sc(0.0), sc(-5.0)),
        vector(sc(0.0), sc(0.0), sc(1.0)),
    );
    let s = Shape::with_transform(ShapeKind::Sphere, scaling(sc(2.0), sc(2.0), sc(2.0)));
    let local_ray = r.transform(&s.transform.inverse());
    check_tuple(local_ray.origin, point(sc(0.0), sc(0.0), sc(-2.5)));
    check_tuple(local_ray.direction, vector(sc(0.0), sc(0.0), sc(0.5)));
    assert_eq!(s.intersect(&r), s.local_intersect(&local_ray));
}

#[test]
fn intersecting_a_translated_shape_with_a_ray() {
    let r = rpov::rays::ray(
        point(sc(0.0), sc(0.0), sc(-5.0)),
        vector(sc(0.0), sc(0.0), sc(1.0)),
    );
    let s = Shape::with_transform(ShapeKind::Sphere, translation(sc(5.0), sc(0.0), sc(0.0)));
    let local_ray = r.transform(&s.transform.inverse());
    assert_eq!(local_ray.origin, point(sc(-5.0), sc(0.0), sc(-5.0)));
    assert_eq!(local_ray.direction, vector(sc(0.0), sc(0.0), sc(1.0)));
    assert_eq!(s.intersect(&r), s.local_intersect(&local_ray));
}
