//! Area light sources described separately from the scene's primitives.

use vstd::prelude::*;
use crate::vec3::Color;

verus! {

/// A ceiling panel light: a color at a byte-sized brightness.
#[derive(Clone, Copy, Debug)]
pub struct Ceiling {
    pub color: Color,
    pub brightness: u8,
}

impl Ceiling {
    pub fn new(color: Color, brightness: u8) -> (r: Ceiling)
        ensures
            r == (Ceiling { color, brightness }),
    {
        Ceiling { color, brightness }
    }
}

} // verus!
