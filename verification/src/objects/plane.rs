//! When a ray hits a plane.

use vstd::prelude::*;
use crate::maths::scalar::{lt, nan, scaled};
use crate::objects::intersection::{ahead, is_ahead};

verus! {

/// The pattern of 1e-6: what the ray's direction must exceed along the plane's normal.
pub const EPSILON: u32 = 0x3586_37bd;

/// Whether a ray runs along the plane's normal by more than [`EPSILON`]. A plane is
/// hit from one side only: by rays that come from the side its normal points away from.
pub open spec fn facing(denom: u32) -> bool {
    !nan(denom) && scaled(denom) > scaled(EPSILON)
}

/// The hit of a ray on a plane: the distance, where the ray faces the plane and the
/// distance lies ahead of its origin.
pub open spec fn hit(denom: u32, distance: u32) -> Option<u32> {
    if facing(denom) && ahead(distance) {
        Some(distance)
    } else {
        None
    }
}

/// The distance at which a ray hits a plane, given `denom`, the dot product of the
/// plane's normal with the ray's direction, and `distance`, the quotient that solves
/// the plane's equation along the ray.
pub fn intersect(denom: u32, distance: u32) -> (found: Option<u32>)
    ensures
        found == hit(denom, distance),
        found matches Some(d) ==> ahead(d),
{
    if lt(EPSILON, denom) && is_ahead(distance) {
        Some(distance)
    } else {
        None
    }
}

} // verus!
