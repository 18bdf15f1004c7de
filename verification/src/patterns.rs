//! Surface patterns: the stripe pattern, and the test pattern that
//! reports the pattern-space point as a color.

use vstd::prelude::*;
use crate::scalar::{Scalar, SCALE, iabs};
use crate::colors::Color;
use crate::matrices::{Matrix, mat_wf, det_spec, inverse_spec};
use crate::rays::spec_mul_tuple;
use crate::tuples::Tuple4;
use vstd::arithmetic::div_mod::lemma_fundamental_div_mod_converse;

verus! {

/// What a pattern paints.
#[derive(Debug, Clone, PartialEq, Eq)]
pub enum PatternKind {
    /// Two colors alternating along the x axis.
    Stripe { a: Color, b: Color },
    /// The pattern-space point itself, read as a color.
    Test,
}

/// A pattern with its own transform from pattern space to object
/// space.
#[derive(Debug, Clone, PartialEq, Eq)]
pub struct StripePattern {
    pub kind: PatternKind,
    pub transform: Matrix,
}

/// Whether the floor of `x` at the grid is even: `x` lies in an even
/// stripe.
pub open spec fn stripe_even(x: int) -> bool {
    x % (2 * SCALE as int) < SCALE as int
}

/// The color a stripe pattern shows at a pattern-space point.
pub open spec fn stripe_at_spec(a: Color, b: Color, p: Tuple4) -> Color {
    if stripe_even(p.x@) {
        a
    } else {
        b
    }
}

/// The color a pattern shows at a pattern-space point.
pub open spec fn pattern_at_spec(k: PatternKind, p: Tuple4) -> Color {
    match k {
        PatternKind::Stripe { a, b } => stripe_at_spec(a, b, p),
        PatternKind::Test => Color { red: p.x, green: p.y, blue: p.z },
    }
}

/// The color a pattern shows at an object-space point, after the
/// pattern's own inverse transform.
pub open spec fn pattern_at_object_spec(pat: StripePattern, object_point: Tuple4) -> Color {
    pattern_at_spec(pat.kind, spec_mul_tuple(inverse_spec(pat.transform@), object_point))
}

/// The remainder of `raw` by twice the grid, as Euclid divides.
fn emod_two_scale(raw: i64) -> (r: i64)
    ensures
        r as int == (raw as int) % (2 * SCALE as int),
{
    let m: i64 = 2 * SCALE;
    if raw >= 0 {
        let q: u64 = (raw as u64) / (m as u64);
        let rem: u64 = (raw as u64) % (m as u64);
        proof {
            lemma_fundamental_div_mod_converse(raw as int, m as int, q as int, rem as int);
        }
        rem as i64
    } else {
        let mag: u64 = (-(raw as i128)) as u64;
        let rem: u64 = mag % (m as u64);
        if rem == 0 {
            let q: u64 = mag / (m as u64);
            proof {
                lemma_fundamental_div_mod_converse(raw as int, m as int, -(q as int), 0);
            }
            0
        } else {
            let q: u64 = mag / (m as u64);
            proof {
                lemma_fundamental_div_mod_converse(
                    raw as int,
                    m as int,
                    -(q as int) - 1,
                    m as int - rem as int,
                );
            }
            m - (rem as i64)
        }
    }
}

/// A stripe pattern of two colors with the identity transform.
pub fn stripe_pattern(a: Color, b: Color) -> (r: StripePattern)
    ensures
        r.kind == (PatternKind::Stripe { a, b }),
        r.transform.wf(),
        r.transform@ == crate::matrices::identity_spec(4),
{
    StripePattern { kind: PatternKind::Stripe { a, b }, transform: Matrix::identity(4) }
}

/// The test pattern with the identity transform.
pub fn test_pattern() -> (r: StripePattern)
    ensures
        r.kind == PatternKind::Test,
        r.transform.wf(),
        r.transform@ == crate::matrices::identity_spec(4),
{
    StripePattern { kind: PatternKind::Test, transform: Matrix::identity(4) }
}

impl StripePattern {
    /// A well-formed pattern: an invertible four by four transform.
    pub open spec fn wf(&self) -> bool {
        &&& self.transform.wf()
        &&& self.transform@.len() == 4
        &&& det_spec(self.transform@) != 0
    }

    /// The color shown at a pattern-space point.
    pub fn stripe_at(&self, p: Tuple4) -> (r: Color)
        ensures
            r == pattern_at_spec(self.kind, p),
    {
        match &self.kind {
            PatternKind::Stripe { a, b } => {
                let rem = emod_two_scale(p.x.raw);
                if rem < SCALE {
                    *a
                } else {
                    *b
                }
            },
            PatternKind::Test => Color { red: p.x, green: p.y, blue: p.z },
        }
    }

    /// The color shown at an object-space point: the point is first
    /// carried through the pattern's inverse transform.
    pub fn stripe_at_object_point(&self, object_point: Tuple4) -> (r: Color)
        requires
            self.wf(),
        ensures
            r == pattern_at_object_spec(*self, object_point),
    {
        let inv = self.transform.inverse();
        let pattern_point = inv.multiply_tuple(&object_point);
        self.stripe_at(pattern_point)
    }
}

} // verus!
