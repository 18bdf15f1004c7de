//! Homogeneous four-component tuples: points (`w == 1`) and vectors
//! (`w == 0`).

use vstd::prelude::*;
use crate::scalar::{
    Scalar, SCALE, fadd, fsub, fneg, fmul, fdiv, fsqrt, tdiv, iabs,
    lemma_fmul_self_nonneg, spec_scalar_string,
};

verus! {

/// A homogeneous tuple; `w == 1` marks a point, `w == 0` a vector.
#[derive(Debug, Clone, Copy, PartialEq, Eq, Structural)]
pub struct Tuple4 {
    pub x: Scalar,
    pub y: Scalar,
    pub z: Scalar,
    pub w: Scalar,
}

/// The tuple with the given component numerators, which must lie in
/// range.
pub open spec fn t4(x: int, y: int, z: int, w: int) -> Tuple4 {
    Tuple4 {
        x: Scalar { raw: x as i64 },
        y: Scalar { raw: y as i64 },
        z: Scalar { raw: z as i64 },
        w: Scalar { raw: w as i64 },
    }
}

/// The component-wise sum.
pub open spec fn spec_add(a: Tuple4, b: Tuple4) -> Tuple4 {
    t4(fadd(a.x@, b.x@), fadd(a.y@, b.y@), fadd(a.z@, b.z@), fadd(a.w@, b.w@))
}

/// The component-wise difference.
pub open spec fn spec_sub(a: Tuple4, b: Tuple4) -> Tuple4 {
    t4(fsub(a.x@, b.x@), fsub(a.y@, b.y@), fsub(a.z@, b.z@), fsub(a.w@, b.w@))
}

/// The component-wise negation.
pub open spec fn spec_neg(a: Tuple4) -> Tuple4 {
    t4(fneg(a.x@), fneg(a.y@), fneg(a.z@), fneg(a.w@))
}

/// Every component multiplied by `s`.
pub open spec fn spec_scale(a: Tuple4, s: int) -> Tuple4 {
    t4(fmul(a.x@, s), fmul(a.y@, s), fmul(a.z@, s), fmul(a.w@, s))
}

/// Every component divided by `s`.
pub open spec fn spec_div(a: Tuple4, s: int) -> Tuple4 {
    t4(fdiv(a.x@, s), fdiv(a.y@, s), fdiv(a.z@, s), fdiv(a.w@, s))
}

/// Numerator of the dot product: the truncating products of matching
/// components, summed left to right.
pub open spec fn spec_dot(a: Tuple4, b: Tuple4) -> int {
    fadd(
        fadd(fadd(fmul(a.x@, b.x@), fmul(a.y@, b.y@)), fmul(a.z@, b.z@)),
        fmul(a.w@, b.w@),
    )
}

/// Numerator of the squared magnitude.
pub open spec fn spec_mag2(a: Tuple4) -> int {
    spec_dot(a, a)
}

/// Numerator of the magnitude: the grid square root of the squared
/// magnitude.
pub open spec fn spec_magnitude(a: Tuple4) -> int {
    fsqrt(spec_mag2(a))
}

/// Every component divided by the magnitude.
pub open spec fn spec_normalize(a: Tuple4) -> Tuple4 {
    spec_div(a, spec_magnitude(a))
}

/// The cross product of two vectors.
pub open spec fn spec_cross(a: Tuple4, b: Tuple4) -> Tuple4 {
    t4(
        fsub(fmul(a.y@, b.z@), fmul(a.z@, b.y@)),
        fsub(fmul(a.z@, b.x@), fmul(a.x@, b.z@)),
        fsub(fmul(a.x@, b.y@), fmul(a.y@, b.x@)),
        0,
    )
}

/// The vector `a` reflected about the vector `n`.
pub open spec fn spec_reflect(a: Tuple4, n: Tuple4) -> Tuple4 {
    t4(
        fsub(a.x@, fmul(fmul(2 * SCALE, spec_dot(a, n)), n.x@)),
        fsub(a.y@, fmul(fmul(2 * SCALE, spec_dot(a, n)), n.y@)),
        fsub(a.z@, fmul(fmul(2 * SCALE, spec_dot(a, n)), n.z@)),
        0,
    )
}

/// Telling points from vectors by the `w` component.
pub trait PointOrVector {
    /// The numerator of the discriminating component.
    spec fn w_value(&self) -> int;

    /// True exactly of points.
    fn is_point(&self) -> (r: bool)
        ensures
            r == (self.w_value() == SCALE),
    ;

    /// True exactly of vectors.
    fn is_vector(&self) -> (r: bool)
        ensures
            r == (self.w_value() == 0),
    ;
}

impl PointOrVector for Tuple4 {
    open spec fn w_value(&self) -> int {
        self.w@
    }

    fn is_point(&self) -> (r: bool) {
        self.w.raw == SCALE
    }

    fn is_vector(&self) -> (r: bool) {
        self.w.raw == 0
    }
}

/// A tuple from its four components.
pub fn make_tuple(x: Scalar, y: Scalar, z: Scalar, w: Scalar) -> (r: Tuple4)
    ensures
        r == (Tuple4 { x, y, z, w }),
{
    Tuple4 { x, y, z, w }
}

/// A point: a tuple with `w == 1`.
pub fn point(x: Scalar, y: Scalar, z: Scalar) -> (r: Tuple4)
    ensures
        r.x == x && r.y == y && r.z == z && r.w@ == SCALE,
{
    Tuple4 { x, y, z, w: Scalar::one() }
}

/// A vector: a tuple with `w == 0`.
pub fn vector(x: Scalar, y: Scalar, z: Scalar) -> (r: Tuple4)
    ensures
        r.x == x && r.y == y && r.z == z && r.w@ == 0,
{
    Tuple4 { x, y, z, w: Scalar::zero() }
}

impl Tuple4 {
    /// A tuple from its four components.
    pub fn new(x: Scalar, y: Scalar, z: Scalar, w: Scalar) -> (r: Tuple4)
        ensures
            r == (Tuple4 { x, y, z, w }),
    {
        Tuple4 { x, y, z, w }
    }

    /// Component-wise sum.
    pub fn add(self, o: Tuple4) -> (r: Tuple4)
        ensures
            r.x@ == fadd(self.x@, o.x@),
            r.y@ == fadd(self.y@, o.y@),
            r.z@ == fadd(self.z@, o.z@),
            r.w@ == fadd(self.w@, o.w@),
            r == spec_add(self, o),
    {
        Tuple4 {
            x: self.x.add(o.x),
            y: self.y.add(o.y),
            z: self.z.add(o.z),
            w: self.w.add(o.w),
        }
    }

    /// Component-wise difference.
    pub fn sub(self, o: Tuple4) -> (r: Tuple4)
        ensures
            r.x@ == fsub(self.x@, o.x@),
            r.y@ == fsub(self.y@, o.y@),
            r.z@ == fsub(self.z@, o.z@),
            r.w@ == fsub(self.w@, o.w@),
            r == spec_sub(self, o),
    {
        Tuple4 {
            x: self.x.sub(o.x),
            y: self.y.sub(o.y),
            z: self.z.sub(o.z),
            w: self.w.sub(o.w),
        }
    }

    /// Component-wise negation.
    pub fn neg(self) -> (r: Tuple4)
        ensures
            r.x@ == fneg(self.x@),
            r.y@ == fneg(self.y@),
            r.z@ == fneg(self.z@),
            r.w@ == fneg(self.w@),
            r == spec_neg(self),
    {
        Tuple4 { x: self.x.neg(), y: self.y.neg(), z: self.z.neg(), w: self.w.neg() }
    }

    /// Every component scaled by `s`.
    pub fn mul(self, s: Scalar) -> (r: Tuple4)
        ensures
            r.x@ == fmul(self.x@, s@),
            r.y@ == fmul(self.y@, s@),
            r.z@ == fmul(self.z@, s@),
            r.w@ == fmul(self.w@, s@),
            r == spec_scale(self, s@),
    {
        Tuple4 {
            x: self.x.mul(s),
            y: self.y.mul(s),
            z: self.z.mul(s),
            w: self.w.mul(s),
        }
    }

    /// Every component divided by the nonzero `s`.
    pub fn div(self, s: Scalar) -> (r: Tuple4)
        requires
            s@ != 0,
        ensures
            r.x@ == fdiv(self.x@, s@),
            r.y@ == fdiv(self.y@, s@),
            r.z@ == fdiv(self.z@, s@),
            r.w@ == fdiv(self.w@, s@),
            r == spec_div(self, s@),
    {
        Tuple4 {
            x: self.x.div(s),
            y: self.y.div(s),
            z: self.z.div(s),
            w: self.w.div(s),
        }
    }

    /// Dot product.
    pub fn dot(self, o: Tuple4) -> (r: Scalar)
        ensures
            r@ == spec_dot(self, o),
    {
        self.x.mul(o.x).add(self.y.mul(o.y)).add(self.z.mul(o.z)).add(self.w.mul(o.w))
    }

    /// Magnitude: the grid square root of the dot product with itself.
    pub fn magnitude(self) -> (r: Scalar)
        ensures
            r@ == spec_magnitude(self),
    {
        let m = self.dot(self);
        proof {
            lemma_mag2_nonneg(self);
        }
        m.sqrt_val()
    }

    /// Every component divided by the magnitude, which must not vanish.
    pub fn normalize(self) -> (r: Tuple4)
        requires
            spec_magnitude(self) != 0,
        ensures
            r.x@ == fdiv(self.x@, spec_magnitude(self)),
            r.y@ == fdiv(self.y@, spec_magnitude(self)),
            r.z@ == fdiv(self.z@, spec_magnitude(self)),
            r.w@ == fdiv(self.w@, spec_magnitude(self)),
            r == spec_normalize(self),
    {
        let mag = self.magnitude();
        self.div(mag)
    }

    /// Cross product of two vectors.
    pub fn cross(self, o: Tuple4) -> (r: Tuple4)
        requires
            self.w@ == 0,
            o.w@ == 0,
        ensures
            r.x@ == fsub(fmul(self.y@, o.z@), fmul(self.z@, o.y@)),
            r.y@ == fsub(fmul(self.z@, o.x@), fmul(self.x@, o.z@)),
            r.z@ == fsub(fmul(self.x@, o.y@), fmul(self.y@, o.x@)),
            r.w@ == 0,
            r == spec_cross(self, o),
    {
        vector(
            self.y.mul(o.z).sub(self.z.mul(o.y)),
            self.z.mul(o.x).sub(self.x.mul(o.z)),
            self.x.mul(o.y).sub(self.y.mul(o.x)),
        )
    }

    /// The vector reflected about the vector `normal`.
    pub fn reflect(self, normal: Tuple4) -> (r: Tuple4)
        requires
            self.w@ == 0,
            normal.w@ == 0,
        ensures
            r.x@ == fsub(self.x@, fmul(fmul(2 * SCALE, spec_dot(self, normal)), normal.x@)),
            r.y@ == fsub(self.y@, fmul(fmul(2 * SCALE, spec_dot(self, normal)), normal.y@)),
            r.z@ == fsub(self.z@, fmul(fmul(2 * SCALE, spec_dot(self, normal)), normal.z@)),
            r.w@ == 0,
            r == spec_reflect(self, normal),
    {
        let d = self.dot(normal);
        let two = Scalar::from_int(2);
        let k = two.mul(d);
        vector(
            self.x.sub(k.mul(normal.x)),
            self.y.sub(k.mul(normal.y)),
            self.z.sub(k.mul(normal.z)),
        )
    }
}

/// How a tuple reads: a point, a vector, or a bare tuple with its
/// components in decimal.
pub open spec fn spec_tuple_string(t: Tuple4) -> Seq<char> {
    if t.w@ == SCALE {
        "point("@ + spec_scalar_string(t.x@) + ", "@ + spec_scalar_string(t.y@) + ", "@
            + spec_scalar_string(t.z@) + ")"@
    } else if t.w@ == 0 {
        "vector("@ + spec_scalar_string(t.x@) + ", "@ + spec_scalar_string(t.y@) + ", "@
            + spec_scalar_string(t.z@) + ")"@
    } else {
        "tuple("@ + spec_scalar_string(t.x@) + ", "@ + spec_scalar_string(t.y@) + ", "@
            + spec_scalar_string(t.z@) + ", "@ + spec_scalar_string(t.w@) + ")"@
    }
}

impl Tuple4 {
    /// How the tuple reads, written out in decimal.
    pub fn to_display_string(&self) -> (s: String)
        ensures
            s@ == spec_tuple_string(*self),
    {
        let mut out = String::new();
        if self.w.raw == SCALE {
            out.append("point(");
        } else if self.w.raw == 0 {
            out.append("vector(");
        } else {
            out.append("tuple(");
        }
        out.append(self.x.to_display_string().as_str());
        out.append(", ");
        out.append(self.y.to_display_string().as_str());
        out.append(", ");
        out.append(self.z.to_display_string().as_str());
        if self.w.raw != SCALE && self.w.raw != 0 {
            out.append(", ");
            out.append(self.w.to_display_string().as_str());
        }
        out.append(")");
        proof {
            assert(out@ =~= spec_tuple_string(*self));
        }
        out
    }
}

/// Normalizing yields a vector of magnitude exactly one, shown here
/// for the inputs on which the grid arithmetic is exact: axis-aligned
/// vectors of whole length.  For other vectors the truncating square
/// root and division leave the magnitude within a few grid steps of
/// one, which the tests check on concrete values.
pub proof fn lemma_normalize_axis_unit(v: Tuple4, k: int)
    requires
        1 <= k <= 3000,
        v == t4(k * SCALE, 0, 0, 0) || v == t4(0, k * SCALE, 0, 0) || v == t4(
            0,
            0,
            k * SCALE,
            0,
        ),
    ensures
        spec_magnitude(spec_normalize(v)) == SCALE,
{
    let s = SCALE as int;
    crate::scalar::lemma_fmul_zero(0);
    assert(1 * s <= k * s <= 3000 * s) by (nonlinear_arith)
        requires 1 <= k <= 3000 && s == 1_000_000_000;
    // the squared magnitude is exactly k * k at the grid
    assert((k * s) * (k * s) == (k * k * s) * s) by (nonlinear_arith);
    assert(iabs((k * s) * (k * s)) == (k * k * s) * s) by (nonlinear_arith)
        requires 1 <= k && s > 0;
    vstd::arithmetic::div_mod::lemma_div_multiples_vanish(k * k * s, s);
    assert(s * (k * k * s) == (k * k * s) * s) by (nonlinear_arith);
    assert(tdiv((k * s) * (k * s), s) == k * k * s);
    assert(0 < k * k * s <= i64::MAX as int) by (nonlinear_arith)
        requires 1 <= k <= 3000 && s == 1_000_000_000;
    assert(fmul(k * s, k * s) == k * k * s);
    assert(spec_mag2(v) == k * k * s);
    let u = spec_normalize(v);
    // its square root is exactly k at the grid
    assert((k * s) * (k * s) <= (k * k * s) * s) by (nonlinear_arith);
    assert((k * k * s) * s < (k * s + 1) * (k * s + 1)) by (nonlinear_arith)
        requires 1 <= k && s > 0;
    crate::scalar::lemma_isqrt_unique(((k * k * s) * s) as nat, (k * s) as nat);
    assert(spec_magnitude(v) == k * s);
    // dividing by the magnitude leaves exactly one on the axis
    assert(iabs((k * s) * s) == (k * s) * s) by (nonlinear_arith)
        requires 1 <= k && s > 0;
    vstd::arithmetic::div_mod::lemma_div_multiples_vanish(s, k * s);
    assert((k * s) * s == (k * s) * s);
    assert(tdiv((k * s) * s, k * s) == s) by {
        assert(iabs(k * s) == k * s) by (nonlinear_arith)
            requires 1 <= k && s > 0;
    }
    assert(fdiv(k * s, k * s) == s);
    crate::scalar::lemma_fdiv_zero(k * s);
    if v == t4(k * s, 0, 0, 0) {
        assert(u == t4(s, 0, 0, 0));
    } else if v == t4(0, k * s, 0, 0) {
        assert(u == t4(0, s, 0, 0));
    } else {
        assert(u == t4(0, 0, s, 0));
    }
    // and the magnitude of that unit vector is exactly one
    crate::scalar::lemma_fmul_one(s);
    assert(spec_mag2(u) == s);
    assert(s * s <= s * s) by (nonlinear_arith);
    assert(s * s < (s + 1) * (s + 1)) by (nonlinear_arith)
        requires s > 0;
    crate::scalar::lemma_isqrt_unique((s * s) as nat, s as nat);
    assert(spec_magnitude(u) == s);
}

/// The squared magnitude is never negative.
pub proof fn lemma_mag2_nonneg(a: Tuple4)
    ensures
        spec_mag2(a) >= 0,
{
    lemma_fmul_self_nonneg(a.x@);
    lemma_fmul_self_nonneg(a.y@);
    lemma_fmul_self_nonneg(a.z@);
    lemma_fmul_self_nonneg(a.w@);
}

} // verus!
