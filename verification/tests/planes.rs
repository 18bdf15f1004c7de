use rpov::rays::Ray;
use rpov::scalar::Scalar;
use rpov::shapes::plane;
use rpov::tuples::{point, vector};

fn sc(v: f64) -> Scalar {
    Scalar::from_raw((v * 1_000_000_000f64).round() as i64)
}

#[test]
fn the_normal_of_a_plane_is_constant_everywhere() {
    let p = plane();
    let n1 = p.local_normal_at(&point(sc(0.0), sc(0.0), sc(0.0)));
    let n2 = p.local_normal_at(&point(sc(10.0), sc(0.0), sc(-10.0)));
    let n3 = p.local_normal_at(&point(sc(-5.0), sc(0.0), sc(150.0)));
    assert_eq!(n1, vector(sc(0.0), sc(1.0), sc(0.0)));
    assert_eq!(n2, vector(sc(0.0), sc(1.0), sc(0.0)));
    assert_eq!(n3, vector(sc(0.0), sc(1.0), sc(0.0)));
}

#[test]
fn intersect_with_a_ray_parallel_to_the_plane() {
    let p = plane();
    let r = Ray::new(point(sc(0.0), sc(10.0), sc(0.0)), vector(sc(0.0), sc(0.0), sc(1.0)));
    let xs = p.local_intersect(&r);
    assert!(xs.is_empty());
}

#[test]
fn intersect_with_a_coplanar_ray() {
    let p = plane();
    let r = Ray::new(point(sc(0.0), sc(0.0), sc(0.0)), vector(sc(0.0), sc(0.0), sc(1.0)));
    let xs = p.local_intersect(&r);
    assert!(xs.is_empty());
}

#[test]
fn a_ray_intersecting_a_plane_from_above() {
    let p = plane();
    let r = Ray::new(point(sc(0.0), sc(1.0), sc(0.0)), vector(sc(0.0), sc(-1.0), sc(0.0)));
    let xs = p.local_intersect(&r);
    assert_eq!(xs.len(), 1);
    assert_eq!(xs[0], sc(1.0));
}

#[test]
fn a_ray_intersecting_a_plane_from_below() {
    let p = plane();
    let r = Ray::new(point(sc(0.0), sc(-1.0), sc(0.0)), vector(sc(0.0), sc(1.0), sc(0.0)));
    let xs = p.local_intersect(&r);
    assert_eq!(xs.len(), 1);
    assert_eq!(xs[0], sc(1.0));
}
