//! Colors with red, green and blue channels, combined channel by
//! channel.

use vstd::prelude::*;
use crate::scalar::{Scalar, fadd, fsub, fmul};

verus! {

/// A color; each channel is a fixed-point scalar, nominally in zero to
/// one but unclamped until serialization.
#[derive(Debug, Clone, Copy, PartialEq, Eq, Structural)]
pub struct Color {
    pub red: Scalar,
    pub green: Scalar,
    pub blue: Scalar,
}

/// The color with the given channel numerators, which must lie in
/// range.
pub open spec fn c3(r: int, g: int, b: int) -> Color {
    Color {
        red: Scalar { raw: r as i64 },
        green: Scalar { raw: g as i64 },
        blue: Scalar { raw: b as i64 },
    }
}

/// Channel-wise sum.
pub open spec fn spec_color_add(a: Color, b: Color) -> Color {
    c3(fadd(a.red@, b.red@), fadd(a.green@, b.green@), fadd(a.blue@, b.blue@))
}

/// Channel-wise difference.
pub open spec fn spec_color_sub(a: Color, b: Color) -> Color {
    c3(fsub(a.red@, b.red@), fsub(a.green@, b.green@), fsub(a.blue@, b.blue@))
}

/// Every channel multiplied by `s`.
pub open spec fn spec_color_scale(a: Color, s: int) -> Color {
    c3(fmul(a.red@, s), fmul(a.green@, s), fmul(a.blue@, s))
}

/// The Hadamard product: channels multiplied pairwise.
pub open spec fn spec_color_mul(a: Color, b: Color) -> Color {
    c3(fmul(a.red@, b.red@), fmul(a.green@, b.green@), fmul(a.blue@, b.blue@))
}

/// Black: all channels zero.
pub open spec fn spec_black() -> Color {
    c3(0, 0, 0)
}

/// How a color reads, channel by channel in decimal.
pub open spec fn spec_color_string(c: Color) -> Seq<char> {
    "Color(r="@ + crate::scalar::spec_scalar_string(c.red@) + ", g="@
        + crate::scalar::spec_scalar_string(c.green@) + ", b="@
        + crate::scalar::spec_scalar_string(c.blue@) + ")"@
}

impl Color {
    /// How the color reads, written out in decimal.
    pub fn to_display_string(&self) -> (s: String)
        ensures
            s@ == spec_color_string(*self),
    {
        let mut out = String::new();
        out.append("Color(r=");
        out.append(self.red.to_display_string().as_str());
        out.append(", g=");
        out.append(self.green.to_display_string().as_str());
        out.append(", b=");
        out.append(self.blue.to_display_string().as_str());
        out.append(")");
        proof {
            assert(out@ =~= spec_color_string(*self));
        }
        out
    }

    /// A color from its three channels.
    pub fn new(red: Scalar, green: Scalar, blue: Scalar) -> (r: Color)
        ensures
            r == (Color { red, green, blue }),
    {
        Color { red, green, blue }
    }

    /// Black.
    pub fn black() -> (r: Color)
        ensures
            r == spec_black(),
    {
        Color { red: Scalar::zero(), green: Scalar::zero(), blue: Scalar::zero() }
    }

    /// White: all channels one.
    pub fn white() -> (r: Color)
        ensures
            r.red@ == crate::scalar::SCALE,
            r.green@ == crate::scalar::SCALE,
            r.blue@ == crate::scalar::SCALE,
    {
        Color { red: Scalar::one(), green: Scalar::one(), blue: Scalar::one() }
    }

    /// Channel-wise sum.
    pub fn add(self, o: Color) -> (r: Color)
        ensures
            r == spec_color_add(self, o),
    {
        Color {
            red: self.red.add(o.red),
            green: self.green.add(o.green),
            blue: self.blue.add(o.blue),
        }
    }

    /// Channel-wise difference.
    pub fn sub(self, o: Color) -> (r: Color)
        ensures
            r == spec_color_sub(self, o),
    {
        Color {
            red: self.red.sub(o.red),
            green: self.green.sub(o.green),
            blue: self.blue.sub(o.blue),
        }
    }

    /// Every channel scaled by `s`.
    pub fn scale(self, s: Scalar) -> (r: Color)
        ensures
            r == spec_color_scale(self, s@),
    {
        Color {
            red: self.red.mul(s),
            green: self.green.mul(s),
            blue: self.blue.mul(s),
        }
    }

    /// The Hadamard product.
    pub fn mul(self, o: Color) -> (r: Color)
        ensures
            r == spec_color_mul(self, o),
    {
        Color {
            red: self.red.mul(o.red),
            green: self.green.mul(o.green),
            blue: self.blue.mul(o.blue),
        }
    }
}

} // verus!
