use rpov::intersections::{Intersection, hit};
use rpov::rays::ray;
use rpov::scalar::Scalar;
use rpov::shapes::{Shape, ShapeKind, glass_sphere, plane, sphere};
use rpov::transformations::{scaling, translation};
use rpov::tuples::{point, vector};
use rpov::world::World;

fn sc(v: f64) -> Scalar {
    Scalar::from_raw((v * 1_000_000_000f64).round() as i64)
}

#[test]
fn an_intersection_encapsulates_t_and_object() {
    let i = Intersection::new(sc(3.5), 0);
    assert_eq!(i.t, sc(3.5));
    assert_eq!(i.object, 0);
}

#[test]
fn aggregating_intersections() {
    let i1 = Intersection::new(sc(1.0), 0);
    let i2 = Intersection::new(sc(2.0), 0);
    let xs = [i1, i2];
    assert_eq!(xs.len(), 2);
    assert_eq!(xs[0].t, sc(1.0));
    assert_eq!(xs[1].t, sc(2.0));
}

#[test]
fn intersect_sets_the_object_on_the_intersection() {
    let r = ray(point(sc(0.0), sc(0.0), sc(-5.0)), vector(sc(0.0), sc(0.0), sc(1.0)));
    let w = World { objects: vec![sphere()], light: None };
    let xs = w.intersect(&r);
    assert_eq!(xs.len(), 2);
    assert_eq!(xs[0].object, 0);
    assert_eq!(xs[1].object, 0);
}

#[test]
fn the_hit_when_all_intersections_have_positive_t() {
    let i1 = Intersection::new(sc(1.0), 0);
    let i2 = Intersection::new(sc(2.0), 0);
    let xs = vec![i2, i1];
    let i = hit(&xs).unwrap();
    assert_eq!(i.t, i1.t);
    assert_eq!(i.object, i1.object);
}

#[test]
fn the_hit_when_some_intersections_have_negative_t() {
    let i1 = Intersection::new(sc(-1.0), 0);
    let i2 = Intersection::new(sc(1.0), 0);
    let xs = vec![i2, i1];
    let i = hit(&xs).unwrap();
    assert_eq!(i.t, i2.t);
    assert_eq!(i.object, i2.object);
}

#[test]
fn the_hit_when_all_intersections_have_negative_t() {
    let i1 = Intersection::new(sc(-2.0), 0);
    let i2 = Intersection::new(sc(-1.0), 0);
    let xs = vec![i2, i1];
    let i = hit(&xs);
    assert!(i.is_none());
}

#[test]
fn the_hit_is_always_the_lowest_nonnegative_intersection() {
    let i1 = Intersection::new(sc(5.0), 0);
    let i2 = Intersection::new(sc(7.0), 0);
    let i3 = Intersection::new(sc(-3.0), 0);
    let i4 = Intersection::new(sc(2.0), 0);
    let xs = vec![i1, i2, i3, i4];
    let i = hit(&xs).unwrap();
    assert_eq!(i.t, sc(2.0));
    assert_eq!(i.object, 0);
}

#[test]
fn precomputing_the_state_of_an_intersection() {
    let r = ray(point(sc(0.0), sc(0.0), sc(-5.0)), vector(sc(0.0), sc(0.0), sc(1.0)));
    let objects = vec![sphere()];
    let i = Intersection::new(sc(4.0), 0);
    let comps = i.prepare_computations(&r, None, &objects);
    assert_eq!(comps.t, i.t);
    assert_eq!(comps.object, i.object);
    assert_eq!(comps.point, point(sc(0.0), sc(0.0), sc(-1.0)));
    assert_eq!(comps.eyev, vector(sc(0.0), sc(0.0), sc(-1.0)));
    assert_eq!(comps.normalv, vector(sc(0.0), sc(0.0), sc(-1.0)));
}

#[test]
fn when_the_hit_occurs_on_the_outside() {
    let r = ray(point(sc(0.0), sc(0.0), sc(-5.0)), vector(sc(0.0), sc(0.0), sc(1.0)));
    let objects = vec![sphere()];
    let i = Intersection::new(sc(4.0), 0);
    let comps = i.prepare_computations(&r, None, &objects);
    assert!(!comps.inside);
}

#[test]
fn the_hit_when_an_intersection_occurs_on_the_inside() {
    let r = ray(point(sc(0.0), sc(0.0), sc(0.0)), vector(sc(0.0), sc(0.0), sc(1.0)));
    let objects = vec![sphere()];
    let i = Intersection::new(sc(1.0), 0);
    let comps = i.prepare_computations(&r, None, &objects);
    assert_eq!(comps.point, point(sc(0.0), sc(0.0), sc(1.0)));
    assert_eq!(comps.eyev, vector(sc(0.0), sc(0.0), sc(-1.0)));
    assert!(comps.inside);
    assert_eq!(comps.normalv, vector(sc(0.0), sc(0.0), sc(-1.0)));
}

#[test]
fn precomputing_the_reflection_vector() {
    let h = 2.0f64.sqrt() / 2.0;
    let objects = vec![plane()];
    let r = ray(point(sc(0.0), sc(1.0), sc(-1.0)), vector(sc(0.0), sc(-h), sc(h)));
    let i = Intersection::new(sc(2.0f64.sqrt()), 0);
    let comps = i.prepare_computations(&r, None, &objects);
    assert!((comps.reflectv.x.raw - sc(0.0).raw).abs() <= 10_000);
    assert!((comps.reflectv.y.raw - sc(h).raw).abs() <= 10_000);
    assert!((comps.reflectv.z.raw - sc(h).raw).abs() <= 10_000);
}

#[test]
fn finding_n1_and_n2_at_various_intersections() {
    let mut a = glass_sphere();
    a.transform = scaling(sc(2.0), sc(2.0), sc(2.0));
    a.material.refractive_index = sc(1.5);

    let mut b = glass_sphere();
    b.transform = translation(sc(0.0), sc(0.0), sc(-0.25));
    b.material.refractive_index = sc(2.0);

    let mut c = glass_sphere();
    c.transform = translation(sc(0.0), sc(0.0), sc(0.25));
    c.material.refractive_index = sc(2.5);

    let objects = vec![a, b, c];
    let r = ray(point(sc(0.0), sc(0.0), sc(-4.0)), vector(sc(0.0), sc(0.0), sc(1.0)));

    let xs = vec![
        Intersection::new(sc(2.0), 0),
        Intersection::new(sc(2.75), 1),
        Intersection::new(sc(3.25), 2),
        Intersection::new(sc(4.75), 1),
        Intersection::new(sc(5.25), 2),
        Intersection::new(sc(6.0), 0),
    ];

    let test_cases = vec![
        (0usize, 1.0, 1.5),
        (1, 1.5, 2.0),
        (2, 2.0, 2.5),
        (3, 2.5, 2.5),
        (4, 2.5, 1.5),
        (5, 1.5, 1.0),
    ];

    for (index, expected_n1, expected_n2) in test_cases {
        let comps = xs[index].prepare_computations(&r, Some(&xs), &objects);
        assert_eq!(comps.n1, sc(expected_n1), "n1 at {}", index);
        assert_eq!(comps.n2, sc(expected_n2), "n2 at {}", index);
    }
}

#[test]
fn the_under_point_is_offset_below_the_surface() {
    let r = ray(point(sc(0.0), sc(0.0), sc(-5.0)), vector(sc(0.0), sc(0.0), sc(1.0)));
    let mut shape = glass_sphere();
    shape.transform = translation(sc(0.0), sc(0.0), sc(1.0));
    let objects = vec![shape];
    let i = Intersection::new(sc(5.0), 0);
    let xs = vec![i];
    let comps = i.prepare_computations(&r, Some(&xs), &objects);
    assert!(comps.under_point.z.raw > rpov::scalar::EPSILON / 2);
    assert!(comps.point.z.raw < comps.under_point.z.raw);
}

#[test]
fn hit_with_equal_roots_keeps_the_earlier_entry() {
    let i1 = Intersection::new(sc(2.0), 0);
    let i2 = Intersection::new(sc(2.0), 1);
    let xs = vec![i1, i2];
    let i = hit(&xs).unwrap();
    assert_eq!(i.t, sc(2.0));
    assert_eq!(i.object, 0);
}

#[test]
fn hit_on_an_empty_list_is_none() {
    let xs: Vec<Intersection> = Vec::new();
    assert!(hit(&xs).is_none());
}

#[test]
fn worlds_with_two_shapes_give_distinct_indices() {
    let r = ray(point(sc(0.0), sc(0.0), sc(-5.0)), vector(sc(0.0), sc(0.0), sc(1.0)));
    let s1 = sphere();
    let s2 = Shape::with_transform(ShapeKind::Sphere, translation(sc(0.0), sc(0.0), sc(3.0)));
    let w = World { objects: vec![s1, s2], light: None };
    let xs = w.intersect(&r);
    assert_eq!(xs.len(), 4);
    assert_eq!(xs[0].object, 0);
    assert_eq!(xs[1].object, 0);
    assert_eq!(xs[2].object, 1);
    assert_eq!(xs[3].object, 1);
}
