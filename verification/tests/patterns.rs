use rpov::colors::Color;
use rpov::lighting::{lighting, point_light};
use rpov::materials::Material;
use rpov::patterns::{StripePattern, stripe_pattern};
use rpov::scalar::Scalar;
use rpov::shapes::{Shape, ShapeKind, sphere};
use rpov::transformations::{scaling, translation};
use rpov::tuples::{Tuple4, point, vector};

fn sc(v: f64) -> Scalar {
    Scalar::from_raw((v * 1_000_000_000f64).round() as i64)
}

fn default_white_black_stripe() -> (Color, Color, StripePattern) {
    let white = Color::new(sc(1.0), sc(1.0), sc(1.0));
    let black = Color::new(sc(0.0), sc(0.0), sc(0.0));
    (white, black, stripe_pattern(white, black))
}

fn stripe_at_object(pattern: &StripePattern, object: &Shape, world_point: Tuple4) -> Color {
    let object_point = object.transform.inverse().multiply_tuple(&world_point);
    pattern.stripe_at_object_point(object_point)
}

#[test]
fn creating_a_stripe_pattern() {
    let (white, black, pattern) = default_white_black_stripe();
    assert_eq!(
        pattern.kind,
        rpov::patterns::PatternKind::Stripe { a: white, b: black }
    );
}

#[test]
fn a_stripe_pattern_is_constant_in_y() {
    let (white, _black, pattern) = default_white_black_stripe();
    assert_eq!(pattern.stripe_at(point(sc(0.0), sc(0.0), sc(0.0))), white);
    assert_eq!(pattern.stripe_at(point(sc(0.0), sc(1.0), sc(0.0))), white);
    assert_eq!(pattern.stripe_at(point(sc(0.0), sc(2.0), sc(0.0))), white);
}

#[test]
fn a_stripe_pattern_is_constant_in_z() {
    let (white, _black, pattern) = default_white_black_stripe();
    assert_eq!(pattern.stripe_at(point(sc(0.0), sc(0.0), sc(0.0))), white);
    assert_eq!(pattern.stripe_at(point(sc(0.0), sc(0.0), sc(1.0))), white);
    assert_eq!(pattern.stripe_at(point(sc(0.0), sc(0.0), sc(2.0))), white);
}

#[test]
fn a_stripe_pattern_alternates_in_x() {
    let (white, black, pattern) = default_white_black_stripe();
    assert_eq!(pattern.stripe_at(point(sc(0.0), sc(0.0), sc(0.0))), white);
    assert_eq!(pattern.stripe_at(point(sc(0.9), sc(0.0), sc(0.0))), white);
    assert_eq!(pattern.stripe_at(point(sc(1.0), sc(0.0), sc(0.0))), black);
    assert_eq!(pattern.stripe_at(point(sc(-0.1), sc(0.0), sc(0.0))), black);
    assert_eq!(pattern.stripe_at(point(sc(-1.0), sc(0.0), sc(0.0))), black);
    assert_eq!(pattern.stripe_at(point(sc(-1.1), sc(0.0), sc(0.0))), white);
}

#[test]
fn lighting_with_a_pattern_applied() {
    let mut m = Material::new();
    m.pattern = Some(stripe_pattern(
        Color::new(sc(1.0), sc(1.0), sc(1.0)),
        Color::new(sc(0.0), sc(0.0), sc(0.0)),
    ));
    m.ambient = sc(1.0);
    m.diffuse = sc(0.0);
    m.specular = sc(0.0);
    let eyev = vector(sc(0.0), sc(0.0), sc(-1.0));
    let normalv = vector(sc(0.0), sc(0.0), sc(-1.0));
    let light = point_light(point(sc(0.0), sc(0.0), sc(-10.0)), Color::new(sc(1.0), sc(1.0), sc(1.0)));
    let object = sphere();
    let c1 = lighting(&m, &object, &light, point(sc(0.9), sc(0.0), sc(0.0)), eyev, normalv, false);
    let c2 = lighting(&m, &object, &light, point(sc(1.1), sc(0.0), sc(0.0)), eyev, normalv, false);
    assert_eq!(c1, Color::new(sc(1.0), sc(1.0), sc(1.0)));
    assert_eq!(c2, Color::new(sc(0.0), sc(0.0), sc(0.0)));
}

#[test]
fn stripes_with_an_object_transformation() {
    let object = Shape::with_transform(ShapeKind::Sphere, scaling(sc(2.0), sc(2.0), sc(2.0)));
    let (white, _black, pattern) = default_white_black_stripe();
    let c = stripe_at_object(&pattern, &object, point(sc(1.5), sc(0.0), sc(0.0)));
    assert_eq!(c, white);
}

#[test]
fn stripes_with_a_pattern_transformation() {
    let object = sphere();
    let (white, _black, mut pattern) = default_white_black_stripe();
    pattern.transform = scaling(sc(2.0), sc(2.0), sc(2.0));
    let c = stripe_at_object(&pattern, &object, point(sc(1.5), sc(0.0), sc(0.0)));
    assert_eq!(c, white);
}

#[test]
fn stripes_with_both_an_object_and_a_pattern_transformation() {
    let object = Shape::with_transform(ShapeKind::Sphere, scaling(sc(2.0), sc(2.0), sc(2.0)));
    let (white, _black, mut pattern) = default_white_black_stripe();
    pattern.transform = translation(sc(0.5), sc(0.0), sc(0.0));
    let c = stripe_at_object(&pattern, &object, point(sc(2.5), sc(0.0), sc(0.0)));
    assert_eq!(c, white);
}
