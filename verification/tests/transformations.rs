use rpov::matrices::Matrix;
use rpov::scalar::Scalar;
use rpov::transformations::{
    rotation_x, rotation_y, rotation_z, scaling, shearing, translation, view_transform,
};
use rpov::tuples::{PointOrVector, Tuple4, point, vector};

fn sc(v: f64) -> Scalar {
    Scalar::from_raw((v * 1_000_000_000f64).round() as i64)
}

fn approx(a: Scalar, b: Scalar) -> bool {
    (a.raw - b.raw).abs() <= 10_000
}

fn check_tuple(actual: Tuple4, expected: Tuple4) {
    assert!(approx(actual.x, expected.x), "x: {} vs {}", actual.x.raw, expected.x.raw);
    assert!(approx(actual.y, expected.y), "y: {} vs {}", actual.y.raw, expected.y.raw);
    assert!(approx(actual.z, expected.z), "z: {} vs {}", actual.z.raw, expected.z.raw);
    assert!(approx(actual.w, expected.w), "w: {} vs {}", actual.w.raw, expected.w.raw);
    assert!(actual.is_point() == expected.is_point());
}

fn check(a: &Matrix, expected: &Matrix) {
    let n = a.size();
    assert_eq!(n, expected.size());
    let mut row: usize = 0;
    while row < n {
        let mut col: usize = 0;
        while col < n {
            assert!(
                (a.get(row, col).raw - expected.get(row, col).raw).abs() <= 10_000,
                "Mismatch at ({}, {})",
                row,
                col
            );
            col += 1;
        }
        row += 1;
    }
}

fn rot_x(angle: f64) -> Matrix {
    rotation_x(sc(angle.sin()), sc(angle.cos()))
}

fn rot_y(angle: f64) -> Matrix {
    rotation_y(sc(angle.sin()), sc(angle.cos()))
}

fn rot_z(angle: f64) -> Matrix {
    rotation_z(sc(angle.sin()), sc(angle.cos()))
}

#[test]
fn multiplying_by_a_translation_matrix() {
    let transform = translation(sc(5.0), sc(-3.0), sc(2.0));
    let p = point(sc(-3.0), sc(4.0), sc(5.0));
    assert_eq!(transform.multiply_tuple(&p), point(sc(2.0), sc(1.0), sc(7.0)));
}

#[test]
fn multiplying_by_the_inverse_of_a_translation_matrix() {
    let transform = translation(sc(5.0), sc(-3.0), sc(2.0));
    let inv = transform.inverse();
    let p = point(sc(-3.0), sc(4.0), sc(5.0));
    assert_eq!(inv.multiply_tuple(&p), point(sc(-8.0), sc(7.0), sc(3.0)));
}

#[test]
fn translation_does_not_affect_vectors() {
    let transform = translation(sc(5.0), sc(-3.0), sc(2.0));
    let v = vector(sc(-3.0), sc(4.0), sc(5.0));
    assert_eq!(transform.multiply_tuple(&v), v);
}

#[test]
fn a_scaling_matrix_applied_to_a_point() {
    let transform = scaling(sc(2.0), sc(3.0), sc(4.0));
    let p = point(sc(-4.0), sc(6.0), sc(8.0));
    assert_eq!(transform.multiply_tuple(&p), point(sc(-8.0), sc(18.0), sc(32.0)));
}

#[test]
fn a_scaling_matrix_applied_to_a_vector() {
    let transform = scaling(sc(2.0), sc(3.0), sc(4.0));
    let v = vector(sc(-4.0), sc(6.0), sc(8.0));
    assert_eq!(transform.multiply_tuple(&v), vector(sc(-8.0), sc(18.0), sc(32.0)));
}

#[test]
fn multiplying_by_the_inverse_of_a_scaling_matrix() {
    let transform = scaling(sc(2.0), sc(3.0), sc(4.0));
    let inv = transform.inverse();
    let v = vector(sc(-4.0), sc(6.0), sc(8.0));
    check_tuple(inv.multiply_tuple(&v), vector(sc(-2.0), sc(2.0), sc(2.0)));
}

#[test]
fn reflection_is_scaling_by_a_negative_value() {
    let transform = scaling(sc(-1.0), sc(1.0), sc(1.0));
    let p = point(sc(2.0), sc(3.0), sc(4.0));
    assert_eq!(transform.multiply_tuple(&p), point(sc(-2.0), sc(3.0), sc(4.0)));
}

#[test]
fn rotating_a_point_around_the_x_axis() {
    let pi = std::f64::consts::PI;
    let p = point(sc(0.0), sc(1.0), sc(0.0));
    let half_quarter = rot_x(pi / 4.0);
    let full_quarter = rot_x(pi / 2.0);
    let h = 2.0f64.sqrt() / 2.0;
    check_tuple(half_quarter.multiply_tuple(&p), point(sc(0.0), sc(h), sc(h)));
    check_tuple(full_quarter.multiply_tuple(&p), point(sc(0.0), sc(0.0), sc(1.0)));
}

#[test]
fn the_inverse_of_an_x_rotation_rotates_in_the_opposite_direction() {
    let pi = std::f64::consts::PI;
    let p = point(sc(0.0), sc(1.0), sc(0.0));
    let half_quarter = rot_x(pi / 4.0);
    let inv = half_quarter.inverse();
    let h = 2.0f64.sqrt() / 2.0;
    check_tuple(inv.multiply_tuple(&p), point(sc(0.0), sc(h), sc(-h)));
}

#[test]
fn rotating_a_point_around_the_y_axis() {
    let pi = std::f64::consts::PI;
    let p = point(sc(0.0), sc(0.0), sc(1.0));
    let half_quarter = rot_y(pi / 4.0);
    let full_quarter = rot_y(pi / 2.0);
    let h = 2.0f64.sqrt() / 2.0;
    check_tuple(half_quarter.multiply_tuple(&p), point(sc(h), sc(0.0), sc(h)));
    check_tuple(full_quarter.multiply_tuple(&p), point(sc(1.0), sc(0.0), sc(0.0)));
}

#[test]
fn rotating_a_point_around_the_z_axis() {
    let pi = std::f64::consts::PI;
    let p = point(sc(0.0), sc(1.0), sc(0.0));
    let half_quarter = rot_z(pi / 4.0);
    let full_quarter = rot_z(pi / 2.0);
    let h = 2.0f64.sqrt() / 2.0;
    check_tuple(half_quarter.multiply_tuple(&p), point(sc(-h), sc(h), sc(0.0)));
    check_tuple(full_quarter.multiply_tuple(&p), point(sc(-1.0), sc(0.0), sc(0.0)));
}

#[test]
fn a_shearing_transformation_moves_x_in_proportion_to_y() {
    let transform = shearing(sc(1.0), sc(0.0), sc(0.0), sc(0.0), sc(0.0), sc(0.0));
    let p = point(sc(2.0), sc(3.0), sc(4.0));
    assert_eq!(transform.multiply_tuple(&p), point(sc(5.0), sc(3.0), sc(4.0)));
}

#[test]
fn a_shearing_transformation_moves_x_in_proportion_to_z() {
    let transform = shearing(sc(0.0), sc(1.0), sc(0.0), sc(0.0), sc(0.0), sc(0.0));
    let p = point(sc(2.0), sc(3.0), sc(4.0));
    assert_eq!(transform.multiply_tuple(&p), point(sc(6.0), sc(3.0), sc(4.0)));
}

#[test]
fn a_shearing_transformation_moves_y_in_proportion_to_x() {
    let transform = shearing(sc(0.0), sc(0.0), sc(1.0), sc(0.0), sc(0.0), sc(0.0));
    let p = point(sc(2.0), sc(3.0), sc(4.0));
    assert_eq!(transform.multiply_tuple(&p), point(sc(2.0), sc(5.0), sc(4.0)));
}

#[test]
fn a_shearing_transformation_moves_y_in_proportion_to_z() {
    let transform = shearing(sc(0.0), sc(0.0), sc(0.0), sc(1.0), sc(0.0), sc(0.0));
    let p = point(sc(2.0), sc(3.0), sc(4.0));
    assert_eq!(transform.multiply_tuple(&p), point(sc(2.0), sc(7.0), sc(4.0)));
}

#[test]
fn a_shearing_transformation_moves_z_in_proportion_to_x() {
    let transform = shearing(sc(0.0), sc(0.0), sc(0.0), sc(0.0), sc(1.0), sc(0.0));
    let p = point(sc(2.0), sc(3.0), sc(4.0));
    assert_eq!(transform.multiply_tuple(&p), point(sc(2.0), sc(3.0), sc(6.0)));
}

#[test]
fn a_shearing_transformation_moves_z_in_proportion_to_y() {
    let transform = shearing(sc(0.0), sc(0.0), sc(0.0), sc(0.0), sc(0.0), sc(1.0));
    let p = point(sc(2.0), sc(3.0), sc(4.0));
    assert_eq!(transform.multiply_tuple(&p), point(sc(2.0), sc(3.0), sc(7.0)));
}

#[test]
fn individual_transformations_are_applied_in_sequence() {
    let pi = std::f64::consts::PI;
    let p = point(sc(1.0), sc(0.0), sc(1.0));
    let a = rot_x(pi / 2.0);
    let b = scaling(sc(5.0), sc(5.0), sc(5.0));
    let c = translation(sc(10.0), sc(5.0), sc(7.0));

    let p2 = a.multiply_tuple(&p);
    check_tuple(p2, point(sc(1.0), sc(-1.0), sc(0.0)));

    let p3 = b.multiply_tuple(&p2);
    check_tuple(p3, point(sc(5.0), sc(-5.0), sc(0.0)));

    let p4 = c.multiply_tuple(&p3);
    check_tuple(p4, point(sc(15.0), sc(0.0), sc(7.0)));
}

#[test]
fn chained_transformations_must_be_applied_in_reverse_order() {
    let pi = std::f64::consts::PI;
    let p = point(sc(1.0), sc(0.0), sc(1.0));
    let a = rot_x(pi / 2.0);
    let b = scaling(sc(5.0), sc(5.0), sc(5.0));
    let c = translation(sc(10.0), sc(5.0), sc(7.0));
    let t = c.multiply_matrix(&b).multiply_matrix(&a);
    assert_eq!(t.multiply_tuple(&p), point(sc(15.0), sc(0.0), sc(7.0)));
}

#[test]
fn the_transformation_matrix_for_the_default_orientation() {
    let from = point(sc(0.0), sc(0.0), sc(0.0));
    let to = point(sc(0.0), sc(0.0), sc(-1.0));
    let up = vector(sc(0.0), sc(1.0), sc(0.0));
    let t = view_transform(from, to, up);
    assert_eq!(t, Matrix::identity(4));
}

#[test]
fn a_view_transformation_matrix_looking_in_positive_z_direction() {
    let from = point(sc(0.0), sc(0.0), sc(0.0));
    let to = point(sc(0.0), sc(0.0), sc(1.0));
    let up = vector(sc(0.0), sc(1.0), sc(0.0));
    let t = view_transform(from, to, up);
    assert_eq!(t, scaling(sc(-1.0), sc(1.0), sc(-1.0)));
}

#[test]
fn the_view_transformation_moves_the_world() {
    let from = point(sc(0.0), sc(0.0), sc(8.0));
    let to = point(sc(0.0), sc(0.0), sc(0.0));
    let up = vector(sc(0.0), sc(1.0), sc(0.0));
    let t = view_transform(from, to, up);
    assert_eq!(t, translation(sc(0.0), sc(0.0), sc(-8.0)));
}

#[test]
fn an_arbitrary_view_transformation() {
    let from = point(sc(1.0), sc(3.0), sc(2.0));
    let to = point(sc(4.0), sc(-2.0), sc(8.0));
    let up = vector(sc(1.0), sc(1.0), sc(0.0));
    let t = view_transform(from, to, up);
    let mut expected_rows: Vec<Vec<Scalar>> = Vec::new();
    for row in [
        [-0.50709, 0.50709, 0.67612, -2.36643],
        [0.76772, 0.60609, 0.12122, -2.82843],
        [-0.35857, 0.59761, -0.71714, 0.00000],
        [0.00000, 0.00000, 0.00000, 1.00000],
    ] {
        let mut r: Vec<Scalar> = Vec::new();
        for v in row {
            r.push(sc(v));
        }
        expected_rows.push(r);
    }
    let expected = Matrix::from(expected_rows);
    check(&t, &expected);
}

#[test]
fn a_translation_inverts_exactly() {
    let t = translation(sc(5.0), sc(-3.0), sc(2.0));
    assert_eq!(t.inverse(), translation(sc(-5.0), sc(3.0), sc(-2.0)));
    assert_eq!(t.multiply_matrix(&t.inverse()), Matrix::identity(4));
    assert_eq!(t.inverse().inverse(), t);
}
