//! Surface materials for the Phong model, with reflection and
//! refraction coefficients.

use vstd::prelude::*;
use crate::scalar::{Scalar, SCALE};
use crate::colors::Color;
use crate::patterns::StripePattern;

verus! {

/// A material: base color or pattern, the Phong coefficients, and the
/// reflection and refraction parameters.
#[derive(Debug, Clone, PartialEq, Eq)]
pub struct Material {
    pub color: Color,
    pub pattern: Option<StripePattern>,
    pub ambient: Scalar,
    pub diffuse: Scalar,
    pub specular: Scalar,
    pub shininess: Scalar,
    pub reflective: Scalar,
    pub transparency: Scalar,
    pub refractive_index: Scalar,
}

/// The default material, value by value: white, ambient one tenth,
/// diffuse and specular nine tenths, shininess two hundred, no
/// reflection, no transparency, the refractive index of vacuum.
pub open spec fn default_material_spec() -> Material {
    Material {
        color: Color {
            red: Scalar { raw: 1_000_000_000 },
            green: Scalar { raw: 1_000_000_000 },
            blue: Scalar { raw: 1_000_000_000 },
        },
        pattern: None,
        ambient: Scalar { raw: 100_000_000 },
        diffuse: Scalar { raw: 900_000_000 },
        specular: Scalar { raw: 900_000_000 },
        shininess: Scalar { raw: 200_000_000_000 },
        reflective: Scalar { raw: 0 },
        transparency: Scalar { raw: 0 },
        refractive_index: Scalar { raw: 1_000_000_000 },
    }
}

impl Material {
    /// A well-formed material: a positive refractive index, a
    /// nonnegative shininess, and an invertible pattern transform where
    /// a pattern is set.
    pub open spec fn wf(&self) -> bool {
        &&& self.refractive_index@ > 0
        &&& self.shininess@ >= 0
        &&& match self.pattern {
            Some(p) => p.wf(),
            None => true,
        }
    }

    /// The default material: white, ambient one tenth, diffuse and
    /// specular nine tenths, shininess two hundred, no reflection, no
    /// transparency, the refractive index of vacuum.
    pub fn new() -> (r: Material)
        ensures
            r.color.red@ == SCALE && r.color.green@ == SCALE && r.color.blue@ == SCALE,
            r.pattern is None,
            r.ambient@ == SCALE / 10,
            r.diffuse@ == 9 * (SCALE / 10),
            r.specular@ == 9 * (SCALE / 10),
            r.shininess@ == 200 * SCALE,
            r.reflective@ == 0,
            r.transparency@ == 0,
            r.refractive_index@ == SCALE,
            r == default_material_spec(),
            r.wf(),
    {
        Material {
            color: Color::white(),
            pattern: None,
            ambient: Scalar::from_raw(SCALE / 10),
            diffuse: Scalar::from_raw(9 * (SCALE / 10)),
            specular: Scalar::from_raw(9 * (SCALE / 10)),
            shininess: Scalar::from_int(200),
            reflective: Scalar::zero(),
            transparency: Scalar::zero(),
            refractive_index: Scalar::one(),
        }
    }
}

} // verus!
