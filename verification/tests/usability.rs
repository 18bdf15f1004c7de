use rpov::scalar::Scalar;
use rpov::tuples::{make_tuple, point, vector};

fn sc(v: f64) -> Scalar {
    Scalar::from_raw((v * 1_000_000_000f64).round() as i64)
}

#[test]
fn test_point_display() {
    let p = point(sc(1.0), sc(2.0), sc(3.0));
    assert_eq!(p.to_display_string(), "point(1, 2, 3)");
}

#[test]
fn test_vector_display() {
    let v = vector(sc(1.0), sc(2.0), sc(3.0));
    assert_eq!(v.to_display_string(), "vector(1, 2, 3)");
}

#[test]
fn test_tuple_display() {
    let t = make_tuple(sc(1.0), sc(2.0), sc(3.0), sc(4.0));
    assert_eq!(t.to_display_string(), "tuple(1, 2, 3, 4)");
}

#[test]
fn test_fraction_display() {
    assert_eq!(sc(1.5).to_display_string(), "1.5");
    assert_eq!(sc(-0.25).to_display_string(), "-0.25");
    assert_eq!(sc(0.0).to_display_string(), "0");
    assert_eq!(sc(200.0).to_display_string(), "200");
    assert_eq!(Scalar::from_raw(1).to_display_string(), "0.000000001");
}

#[test]
fn test_color_display() {
    let c = rpov::colors::Color::new(sc(-0.5), sc(0.4), sc(1.7));
    assert_eq!(c.to_display_string(), "Color(r=-0.5, g=0.4, b=1.7)");
}
