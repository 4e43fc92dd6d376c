//! How much of a light a surface takes.

use vstd::prelude::*;
use crate::maths::scalar::{lt, nan, scaled};

verus! {

/// The share of a directional light that a surface takes, by the cosine of the angle
/// between its normal and the direction to the light: the cosine where the surface
/// faces the light, zero where it faces away.
pub open spec fn lit(cosine: u32) -> u32 {
    if !nan(cosine) && scaled(cosine) > 0 {
        cosine
    } else {
        0
    }
}

/// The share of a directional light that a surface takes.
pub fn light_share(cosine: u32) -> (share: u32)
    ensures
        share == lit(cosine),
        !nan(share),
        scaled(share) >= 0,
{
    if lt(0, cosine) {
        cosine
    } else {
        0
    }
}

} // verus!
