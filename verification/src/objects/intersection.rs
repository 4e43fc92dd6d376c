//! The record of a hit, and which distances can make one.

use vstd::prelude::*;
use crate::maths::scalar::{le, nan, scaled};

verus! {

/// A hit: how far along the ray it lies, and on which primitive of the scene.
#[derive(Clone, Copy, Debug, PartialEq, Eq, Structural)]
pub struct Intersection {
    /// The distance along the ray, as the bit pattern of a single.
    pub distance: u32,
    /// The place of the primitive in the scene's collection.
    pub object: usize,
}

/// Whether a distance lies ahead of the ray's origin: a number, and not below zero.
pub open spec fn ahead(distance: u32) -> bool {
    !nan(distance) && scaled(distance) >= 0
}

/// Whether a distance lies ahead of the ray's origin.
pub fn is_ahead(distance: u32) -> (r: bool)
    ensures
        r == ahead(distance),
{
    le(0, distance)
}

} // verus!
