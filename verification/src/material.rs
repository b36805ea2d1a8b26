//! Surface materials: an albedo color and three fixed-point scalars.

use vstd::prelude::*;
use crate::color::Color;

verus! {

/// A surface description. `roughness`, `metallic` and `emission` are
/// fixed-point scalars (see [`crate::color::FP_ONE`]); a positive
/// `emission` marks a light-emitting surface.
#[derive(Clone, Copy, Debug, PartialEq, Eq, Structural)]
pub struct Material {
    pub albedo: Color,
    pub roughness: u64,
    pub metallic: u64,
    pub emission: u64,
}

impl Material {
    pub fn new(albedo: Color, roughness: u64, metallic: u64, emission: u64) -> (m: Material)
        ensures
            m == (Material { albedo, roughness, metallic, emission }),
    {
        Material { albedo, roughness, metallic, emission }
    }

    pub open spec fn default_spec() -> Material {
        Material {
            albedo: Color { r: 500u64, g: 500u64, b: 500u64 },
            roughness: 0u64,
            metallic: 0u64,
            emission: 0u64,
        }
    }

    /// A matte half-gray, the material of objects that never got one.
    pub fn default() -> (m: Material)
        ensures
            m == Material::default_spec(),
    {
        Material {
            albedo: Color { r: 500, g: 500, b: 500 },
            roughness: 0,
            metallic: 0,
            emission: 0,
        }
    }
}

} // verus!
