//! The material carried by every primitive.

use vstd::prelude::*;
use crate::vec3::Color;

verus! {

/// A closed set of materials.  `Light` ends a path, `Diffusive` scatters,
/// `Glossy` blends a mirror bounce with a scattered one, `Reflective`
/// mirrors exactly.
#[derive(Clone, Copy, Debug, PartialEq, Eq, Structural)]
pub enum Texture {
    Light(Color),
    Diffusive(Color),
    Glossy(Color),
    Reflective,
}

impl Texture {
    /// The carried color, if any, is a well-formed color.
    pub open spec fn wf(self) -> bool {
        match self {
            Texture::Light(c) => c.color_wf(),
            Texture::Diffusive(c) => c.color_wf(),
            Texture::Glossy(c) => c.color_wf(),
            Texture::Reflective => true,
        }
    }

    /// Whether this material is a light source.
    pub open spec fn spec_is_light(self) -> bool {
        self matches Texture::Light(_)
    }

    pub fn is_light(&self) -> (r: bool)
        ensures
            r == self.spec_is_light(),
    {
        matches!(self, Texture::Light(_))
    }
}

} // verus!
