//! Color on the surface of objects.

use vstd::prelude::*;

use crate::vec3::V3;

verus! {

/// A texture: the function from surface coordinates and world position to
/// color that materials sample for their attenuation.
#[derive(Clone, Copy, Debug, PartialEq, Eq, Structural)]
pub enum Texture {
    /// The same color everywhere.
    Constant(V3),
}

/// The color the texture takes at the given coordinates.
pub open spec fn texture_value_spec(t: Texture, u: int, v: int, p: V3) -> V3 {
    match t {
        Texture::Constant(c) => c,
    }
}

impl Texture {
    /// The texture's colors are representable.
    pub open spec fn wf(self) -> bool {
        match self {
            Texture::Constant(c) => c.in_range(),
        }
    }

    /// Returns color of the Texture at the given position.
    pub fn value(&self, u: i64, v: i64, p: V3) -> (r: V3)
        ensures
            r == texture_value_spec(*self, u as int, v as int, p),
    {
        match self {
            Texture::Constant(c) => *c,
        }
    }
}

} // verus!
