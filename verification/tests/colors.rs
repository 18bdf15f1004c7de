use rpov::colors::Color;
use rpov::scalar::Scalar;

fn sc(v: f64) -> Scalar {
    Scalar::from_raw((v * 1_000_000_000f64).round() as i64)
}

fn check_color(actual: Color, expected: Color) {
    assert!((actual.red.raw - expected.red.raw).abs() <= 10, "red");
    assert!((actual.green.raw - expected.green.raw).abs() <= 10, "green");
    assert!((actual.blue.raw - expected.blue.raw).abs() <= 10, "blue");
}

#[test]
fn colors_color_components_are_red_green_blue() {
    let c = Color::new(sc(-0.5), sc(0.4), sc(1.7));
    assert_eq!(c.red, sc(-0.5));
    assert_eq!(c.green, sc(0.4));
    assert_eq!(c.blue, sc(1.7));
}

#[test]
fn adding_colors() {
    let c1 = Color::new(sc(0.9), sc(0.6), sc(0.75));
    let c2 = Color::new(sc(0.7), sc(0.1), sc(0.25));
    let result = c1.add(c2);
    assert_eq!(result, Color::new(sc(1.6), sc(0.7), sc(1.0)));
}

#[test]
fn subtracting_colors() {
    let c1 = Color::new(sc(0.9), sc(0.6), sc(0.75));
    let c2 = Color::new(sc(0.7), sc(0.1), sc(0.25));
    let result = c1.sub(c2);
    assert_eq!(result, Color::new(sc(0.2), sc(0.5), sc(0.5)));
}

#[test]
fn multiplying_color_by_scalar() {
    let c = Color::new(sc(0.2), sc(0.3), sc(0.4));
    let result = c.scale(sc(2.0));
    assert_eq!(result, Color::new(sc(0.4), sc(0.6), sc(0.8)));
}

#[test]
fn multiplying_colors() {
    let c1 = Color::new(sc(1.0), sc(0.2), sc(0.4));
    let c2 = Color::new(sc(0.9), sc(1.0), sc(0.1));
    let result = c1.mul(c2);
    check_color(result, Color::new(sc(0.9), sc(0.2), sc(0.04)));
}
