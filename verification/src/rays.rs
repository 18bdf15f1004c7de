//! Rays: an origin point and a direction vector.

use vstd::prelude::*;
use crate::scalar::Scalar;
use crate::tuples::{Tuple4, spec_add, spec_scale};
use crate::matrices::{Matrix, row_tuple_dot};
use crate::tuples::t4;

verus! {

/// A ray through the scene.
#[derive(Debug, Clone, Copy, PartialEq, Eq, Structural)]
pub struct Ray {
    pub origin: Tuple4,
    pub direction: Tuple4,
}

/// The point a distance `t` along the ray: origin plus the scaled
/// direction.
pub open spec fn position_spec(r: Ray, t: int) -> Tuple4 {
    spec_add(r.origin, spec_scale(r.direction, t))
}

/// The tuple `t` carried through the matrix `m`.
pub open spec fn spec_mul_tuple(m: Seq<Seq<int>>, t: Tuple4) -> Tuple4 {
    t4(
        row_tuple_dot(m[0], t),
        row_tuple_dot(m[1], t),
        row_tuple_dot(m[2], t),
        row_tuple_dot(m[3], t),
    )
}

/// The ray carried through the matrix `m`: both parts transformed.
pub open spec fn transform_spec(r: Ray, m: Seq<Seq<int>>) -> Ray {
    Ray { origin: spec_mul_tuple(m, r.origin), direction: spec_mul_tuple(m, r.direction) }
}

/// The identity carries every tuple to itself, whatever its kind.
pub proof fn lemma_identity_mul_tuple(t: Tuple4)
    requires
        -(i64::MAX as int) <= t.x@,
        -(i64::MAX as int) <= t.y@,
        -(i64::MAX as int) <= t.z@,
        -(i64::MAX as int) <= t.w@,
    ensures
        spec_mul_tuple(crate::matrices::identity_spec(4), t) == t,
{
    crate::scalar::lemma_fmul_one(t.x@);
    crate::scalar::lemma_fmul_one(t.y@);
    crate::scalar::lemma_fmul_one(t.z@);
    crate::scalar::lemma_fmul_one(t.w@);
    crate::scalar::lemma_fmul_zero(t.x@);
    crate::scalar::lemma_fmul_zero(t.y@);
    crate::scalar::lemma_fmul_zero(t.z@);
    crate::scalar::lemma_fmul_zero(t.w@);
}

/// A ray from its origin and direction.
pub fn ray(origin: Tuple4, direction: Tuple4) -> (r: Ray)
    ensures
        r == (Ray { origin, direction }),
{
    Ray { origin, direction }
}

impl Ray {
    /// A ray from its origin and direction.
    pub fn new(origin: Tuple4, direction: Tuple4) -> (r: Ray)
        ensures
            r == (Ray { origin, direction }),
    {
        Ray { origin, direction }
    }

    /// The point a distance `t` along the ray.
    pub fn position(&self, t: Scalar) -> (r: Tuple4)
        ensures
            r == position_spec(*self, t@),
    {
        self.origin.add(self.direction.mul(t))
    }

    /// The ray carried through the matrix `m`.
    pub fn transform(&self, m: &Matrix) -> (r: Ray)
        requires
            m.wf(),
            m@.len() == 4,
        ensures
            r == transform_spec(*self, m@),
    {
        Ray { origin: m.multiply_tuple(&self.origin), direction: m.multiply_tuple(&self.direction) }
    }
}

} // verus!
