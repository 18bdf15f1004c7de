//! The point light and the Phong illumination model.

use vstd::prelude::*;
use crate::scalar::{Scalar, SCALE, fpow, exponent_spec};
use crate::colors::{
    Color, spec_black, spec_color_add, spec_color_mul, spec_color_scale,
};
use crate::tuples::{
    Tuple4, spec_sub, spec_neg, spec_dot, spec_magnitude, spec_normalize, spec_reflect,
};
use crate::materials::Material;
use crate::patterns::{StripePattern, pattern_at_object_spec};
use crate::shapes::Shape;
use crate::matrices::inverse_spec;
use crate::rays::spec_mul_tuple;

verus! {

/// A point light: a position and an intensity.
#[derive(Debug, Clone, Copy, PartialEq, Eq, Structural)]
pub struct PointLight {
    pub position: Tuple4,
    pub intensity: Color,
}

/// A point light at a position, which must be a point.
pub fn point_light(position: Tuple4, intensity: Color) -> (r: PointLight)
    requires
        position.w@ == SCALE,
    ensures
        r == (PointLight { position, intensity }),
{
    PointLight { position, intensity }
}

/// The color a pattern shows on a shape at a world point: the point is
/// carried into object space by the shape's inverse transform, then
/// into pattern space by the pattern's own.
pub open spec fn spec_stripe_at_object(pat: StripePattern, object: Shape, wp: Tuple4) -> Color {
    pattern_at_object_spec(pat, spec_mul_tuple(inverse_spec(object.transform@), wp))
}

/// The Phong model: the surface color
/// (or pattern color) filtered by the light, the ambient part always,
/// and the diffuse and specular parts by the light and eye angles; in
/// shadow only the ambient part remains.  A light standing exactly on
/// the surface point contributes its ambient part alone.
pub open spec fn spec_lighting(
    m: Material,
    object: Shape,
    light: PointLight,
    pos: Tuple4,
    eyev: Tuple4,
    normalv: Tuple4,
    in_shadow: bool,
) -> Color {
    let base = match m.pattern {
        Some(pat) => spec_stripe_at_object(pat, object, pos),
        None => m.color,
    };
    let effective = spec_color_mul(base, light.intensity);
    let ambient = spec_color_scale(effective, m.ambient@);
    if in_shadow {
        ambient
    } else {
        let lv = spec_sub(light.position, pos);
        if spec_magnitude(lv) == 0 {
            ambient
        } else {
            let lightv = spec_normalize(lv);
            let ldn = spec_dot(lightv, normalv);
            if ldn < 0 {
                spec_color_add(spec_color_add(ambient, spec_black()), spec_black())
            } else {
                let diffuse = spec_color_scale(spec_color_scale(effective, m.diffuse@), ldn);
                let reflectv = spec_reflect(spec_neg(lightv), normalv);
                let rde = spec_dot(reflectv, eyev);
                if rde <= 0 {
                    spec_color_add(spec_color_add(ambient, diffuse), spec_black())
                } else {
                    let factor = fpow(rde, exponent_spec(m.shininess@));
                    let specular = spec_color_scale(
                        spec_color_scale(light.intensity, m.specular@),
                        factor,
                    );
                    spec_color_add(spec_color_add(ambient, diffuse), specular)
                }
            }
        }
    }
}

/// Phong illumination of a surface point.
pub fn lighting(
    m: &Material,
    object: &Shape,
    light: &PointLight,
    pos: Tuple4,
    eyev: Tuple4,
    normalv: Tuple4,
    in_shadow: bool,
) -> (r: Color)
    requires
        m.wf(),
        object.wf(),
        normalv.w@ == 0,
        light.position.w@ == SCALE,
        pos.w@ == SCALE,
    ensures
        r == spec_lighting(*m, *object, *light, pos, eyev, normalv, in_shadow),
{
    let base = match &m.pattern {
        Some(pat) => {
            let inv = object.transform.inverse();
            let object_point = inv.multiply_tuple(&pos);
            pat.stripe_at_object_point(object_point)
        },
        None => m.color,
    };
    let effective = base.mul(light.intensity);
    let ambient = effective.scale(m.ambient);
    if in_shadow {
        return ambient;
    }
    let lv = light.position.sub(pos);
    let lv_mag = lv.magnitude();
    if lv_mag.is_zero() {
        return ambient;
    }
    proof {
        crate::scalar::lemma_fdiv_zero(spec_magnitude(lv));
    }
    let lightv = lv.normalize();
    let ldn = lightv.dot(normalv);
    let black = Color::black();
    if ldn.lt(Scalar::zero()) {
        return ambient.add(black).add(black);
    }
    let diffuse = effective.scale(m.diffuse).scale(ldn);
    let reflectv = lightv.neg().reflect(normalv);
    let rde = reflectv.dot(eyev);
    if rde.le(Scalar::zero()) {
        return ambient.add(diffuse).add(black);
    }
    let factor = rde.powi(m.shininess.to_exponent());
    let specular = light.intensity.scale(m.specular).scale(factor);
    ambient.add(diffuse).add(specular)
}

} // verus!
