//! Shapes: spheres and planes, each carrying its object-to-world
//! transform and its material.
//!
//! Each kind supplies root finding and the surface normal in its own
//! unit frame; ray transformation into that frame and the mapping of
//! normals back to world space are shared.

use vstd::prelude::*;
use crate::scalar::{
    Scalar, SCALE, EPSILON, fadd, fsub, fneg, fmul, fdiv, fsqrt, iabs,
};
use crate::tuples::{Tuple4, t4, spec_sub, spec_dot, spec_magnitude, spec_normalize};
use crate::matrices::{Matrix, det_spec, inverse_spec, transpose_spec, lemma_identity_det};
use crate::rays::{Ray, spec_mul_tuple, transform_spec};
use crate::materials::Material;

verus! {

/// The geometric kind of a shape.
#[derive(Debug, Clone, Copy, PartialEq, Eq, Structural)]
pub enum ShapeKind {
    /// The unit sphere about the origin of its local frame.
    Sphere,
    /// The plane `y == 0` of its local frame.
    Plane,
}

/// A shape: its kind, its object-to-world transform, and its material.
#[derive(Debug, Clone, PartialEq, Eq)]
pub struct Shape {
    pub kind: ShapeKind,
    pub transform: Matrix,
    pub material: Material,
}

/// The roots of a ray against the unit sphere, in the sphere's local
/// frame: none when the discriminant is negative or the quadratic
/// degenerates, else both roots in ascending order.
pub open spec fn sphere_roots(r: Ray) -> Seq<int> {
    let sphere_to_ray = spec_sub(r.origin, t4(0, 0, 0, SCALE as int));
    let a = spec_dot(r.direction, r.direction);
    let b = fmul(2 * SCALE, spec_dot(r.direction, sphere_to_ray));
    let c = fsub(spec_dot(sphere_to_ray, sphere_to_ray), SCALE as int);
    let disc = fsub(fmul(b, b), fmul(fmul(4 * SCALE, a), c));
    let den = fmul(2 * SCALE, a);
    if disc < 0 || den == 0 {
        Seq::<int>::empty()
    } else {
        let sq = fsqrt(disc);
        let t1 = fdiv(fsub(fneg(b), sq), den);
        let t2 = fdiv(fadd(fneg(b), sq), den);
        if t1 > t2 {
            seq![t2, t1]
        } else {
            seq![t1, t2]
        }
    }
}

/// The root of a ray against the plane `y == 0`, in the plane's local
/// frame: none when the ray runs parallel (or lies in the plane),
/// else the single crossing.
pub open spec fn plane_roots(r: Ray) -> Seq<int> {
    if iabs(r.direction.y@) < EPSILON {
        Seq::<int>::empty()
    } else {
        seq![fdiv(fneg(r.origin.y@), r.direction.y@)]
    }
}

/// A sphere yields no roots or both, and in ascending order.
pub proof fn lemma_sphere_roots_ordered(r: Ray)
    ensures
        sphere_roots(r).len() == 0 || sphere_roots(r).len() == 2,
        sphere_roots(r).len() == 2 ==> sphere_roots(r)[0] <= sphere_roots(r)[1],
{
}

/// A plane yields no root exactly when the ray runs parallel to it,
/// within the offset tolerance; otherwise the single crossing.
pub proof fn lemma_plane_roots(r: Ray)
    ensures
        (plane_roots(r).len() == 0) == (iabs(r.direction.y@) < EPSILON),
        plane_roots(r).len() <= 1,
        plane_roots(r).len() == 1 ==> plane_roots(r)[0] == fdiv(
            fneg(r.origin.y@),
            r.direction.y@,
        ),
{
}

/// The local-frame roots of a ray against a shape kind.
pub open spec fn local_intersect_spec(kind: ShapeKind, r: Ray) -> Seq<int> {
    match kind {
        ShapeKind::Sphere => sphere_roots(r),
        ShapeKind::Plane => plane_roots(r),
    }
}

/// The world-frame roots: the ray is carried into the local frame by
/// the inverse transform; the roots themselves are frame-invariant.
pub open spec fn intersect_spec(s: Shape, r: Ray) -> Seq<int> {
    local_intersect_spec(s.kind, transform_spec(r, inverse_spec(s.transform@)))
}

/// The local-frame surface normal at a local point.
pub open spec fn local_normal_spec(kind: ShapeKind, p: Tuple4) -> Tuple4 {
    match kind {
        ShapeKind::Sphere => spec_sub(p, t4(0, 0, 0, SCALE as int)),
        ShapeKind::Plane => t4(0, SCALE as int, 0, 0),
    }
}

/// The world-frame surface normal at a world point: the local normal
/// carried back by the transposed inverse, its `w` forced to zero, then
/// normalized.  A normal whose truncated magnitude vanishes is returned
/// unnormalized.
pub open spec fn normal_at_spec(s: Shape, world_point: Tuple4) -> Tuple4 {
    let ti = inverse_spec(s.transform@);
    let local_point = spec_mul_tuple(ti, world_point);
    let local_normal = local_normal_spec(s.kind, local_point);
    let wn = spec_mul_tuple(transpose_spec(ti), local_normal);
    let v = t4(wn.x@, wn.y@, wn.z@, 0);
    if spec_magnitude(v) == 0 {
        v
    } else {
        spec_normalize(v)
    }
}

/// A sphere with the identity transform and the default material.
pub fn sphere() -> (r: Shape)
    ensures
        r.kind == ShapeKind::Sphere,
        r.transform@ == crate::matrices::identity_spec(4),
        r.material == crate::materials::default_material_spec(),
        r.wf(),
{
    proof {
        lemma_identity_det();
    }
    Shape { kind: ShapeKind::Sphere, transform: Matrix::identity(4), material: Material::new() }
}

/// A plane with the identity transform and the default material.
pub fn plane() -> (r: Shape)
    ensures
        r.kind == ShapeKind::Plane,
        r.transform@ == crate::matrices::identity_spec(4),
        r.material == crate::materials::default_material_spec(),
        r.wf(),
{
    proof {
        lemma_identity_det();
    }
    Shape { kind: ShapeKind::Plane, transform: Matrix::identity(4), material: Material::new() }
}

/// A glass sphere: fully transparent, refractive index three halves,
/// every other material field left at its default.
pub fn glass_sphere() -> (r: Shape)
    ensures
        r.kind == ShapeKind::Sphere,
        r.transform@ == crate::matrices::identity_spec(4),
        r.material == (Material {
            transparency: Scalar { raw: SCALE },
            refractive_index: Scalar { raw: 1_500_000_000i64 },
            ..crate::materials::default_material_spec()
        }),
        r.material.transparency@ == SCALE,
        r.material.refractive_index@ == SCALE + SCALE / 2,
        r.wf(),
{
    let mut s = sphere();
    s.material.transparency = Scalar::one();
    s.material.refractive_index = Scalar::from_raw(SCALE + SCALE / 2);
    s
}

impl Shape {
    /// A well-formed shape: an invertible four by four transform and a
    /// well-formed material.
    pub open spec fn wf(&self) -> bool {
        &&& self.transform.wf()
        &&& self.transform@.len() == 4
        &&& det_spec(self.transform@) != 0
        &&& self.material.wf()
    }

    /// A shape of the given kind with the given transform, which must
    /// be invertible.
    pub fn with_transform(kind: ShapeKind, transform: Matrix) -> (r: Shape)
        requires
            transform.wf(),
            transform@.len() == 4,
            det_spec(transform@) != 0,
        ensures
            r.kind == kind,
            r.transform == transform,
            r.material == crate::materials::default_material_spec(),
            r.wf(),
    {
        Shape { kind, transform, material: Material::new() }
    }

    /// The local-frame surface normal at a local point.
    pub fn local_normal_at(&self, local_point: &Tuple4) -> (r: Tuple4)
        ensures
            r == local_normal_spec(self.kind, *local_point),
    {
        match self.kind {
            ShapeKind::Sphere => {
                let origin = crate::tuples::point(Scalar::zero(), Scalar::zero(), Scalar::zero());
                local_point.sub(origin)
            },
            ShapeKind::Plane => crate::tuples::vector(
                Scalar::zero(),
                Scalar::one(),
                Scalar::zero(),
            ),
        }
    }

    /// The local-frame roots of a local ray against this shape.
    pub fn local_intersect(&self, local_ray: &Ray) -> (r: Vec<Scalar>)
        ensures
            r@.map_values(|s: Scalar| s@) == local_intersect_spec(self.kind, *local_ray),
    {
        match self.kind {
            ShapeKind::Sphere => {
                let origin = crate::tuples::point(Scalar::zero(), Scalar::zero(), Scalar::zero());
                let sphere_to_ray = local_ray.origin.sub(origin);
                let a = local_ray.direction.dot(local_ray.direction);
                let b = Scalar::from_int(2).mul(local_ray.direction.dot(sphere_to_ray));
                let c = sphere_to_ray.dot(sphere_to_ray).sub(Scalar::one());
                let disc = b.mul(b).sub(Scalar::from_int(4).mul(a).mul(c));
                let den = Scalar::from_int(2).mul(a);
                let mut out: Vec<Scalar> = Vec::new();
                if disc.lt(Scalar::zero()) || den.is_zero() {
                    proof {
                        assert(out@.map_values(|s: Scalar| s@) =~= local_intersect_spec(
                            self.kind,
                            *local_ray,
                        ));
                    }
                    return out;
                }
                let sq = disc.sqrt_val();
                let t1 = b.neg().sub(sq).div(den);
                let t2 = b.neg().add(sq).div(den);
                if t1.gt(t2) {
                    out.push(t2);
                    out.push(t1);
                } else {
                    out.push(t1);
                    out.push(t2);
                }
                proof {
                    assert(out@.map_values(|s: Scalar| s@) =~= local_intersect_spec(
                        self.kind,
                        *local_ray,
                    ));
                }
                out
            },
            ShapeKind::Plane => {
                let mut out: Vec<Scalar> = Vec::new();
                if local_ray.direction.y.abs_val().lt(Scalar::from_raw(EPSILON)) {
                    proof {
                        assert(out@.map_values(|s: Scalar| s@) =~= local_intersect_spec(
                            self.kind,
                            *local_ray,
                        ));
                    }
                    return out;
                }
                let t = local_ray.origin.y.neg().div(local_ray.direction.y);
                out.push(t);
                proof {
                    assert(out@.map_values(|s: Scalar| s@) =~= local_intersect_spec(
                        self.kind,
                        *local_ray,
                    ));
                }
                out
            },
        }
    }

    /// The world-frame roots of a world ray against this shape.
    pub fn intersect(&self, ray: &Ray) -> (r: Vec<Scalar>)
        requires
            self.wf(),
        ensures
            r@.map_values(|s: Scalar| s@) == intersect_spec(*self, *ray),
    {
        let inv = self.transform.inverse();
        let local_ray = ray.transform(&inv);
        self.local_intersect(&local_ray)
    }

    /// The world-frame surface normal at a world point.
    pub fn normal_at(&self, world_point: &Tuple4) -> (r: Tuple4)
        requires
            self.wf(),
        ensures
            r == normal_at_spec(*self, *world_point),
    {
        let ti = self.transform.inverse();
        let local_point = ti.multiply_tuple(world_point);
        let local_normal = self.local_normal_at(&local_point);
        let tit = ti.transpose();
        let wn = tit.multiply_tuple(&local_normal);
        let v = Tuple4 { x: wn.x, y: wn.y, z: wn.z, w: Scalar::zero() };
        let m = v.magnitude();
        if m.is_zero() {
            v
        } else {
            v.normalize()
        }
    }
}

} // verus!
