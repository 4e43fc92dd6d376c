//! When a ray hits a sphere, and at which root of its equation.

use vstd::prelude::*;
use crate::maths::scalar::{le, lt, nan, scaled};
use crate::objects::intersection::{ahead, is_ahead};

verus! {

/// The smallest root that lies ahead of the ray's origin: the nearer crossing where
/// the sphere is in front, the farther one where the origin is inside it, none where
/// the sphere is behind. Of two equal roots it is the first.
pub open spec fn smallest_ahead(t0: u32, t1: u32) -> Option<u32> {
    if ahead(t0) && (!ahead(t1) || scaled(t0) <= scaled(t1)) {
        Some(t0)
    } else if ahead(t1) {
        Some(t1)
    } else {
        None
    }
}

/// The smallest root ahead is one of the two roots, lies ahead, and no root ahead is
/// smaller; there is none exactly when neither root lies ahead.
pub proof fn lemma_smallest_ahead(t0: u32, t1: u32)
    ensures
        smallest_ahead(t0, t1) is None <==> !ahead(t0) && !ahead(t1),
        smallest_ahead(t0, t1) matches Some(d) ==> (d == t0 || d == t1) && ahead(d),
        smallest_ahead(t0, t1) matches Some(d) ==> (ahead(t0) ==> scaled(d) <= scaled(t0)),
        smallest_ahead(t0, t1) matches Some(d) ==> (ahead(t1) ==> scaled(d) <= scaled(t1)),
{
}

/// Whether the ray passes the sphere: `d2`, the square of the least distance between
/// the ray's line and the centre, is more than the square of the radius.
pub open spec fn passes(d2: u32, radius2: u32) -> bool {
    !nan(d2) && !nan(radius2) && scaled(radius2) < scaled(d2)
}

/// The hit of a ray on a sphere: none where the ray passes it, else the smallest
/// root ahead.
pub open spec fn hit(d2: u32, radius2: u32, t0: u32, t1: u32) -> Option<u32> {
    if passes(d2, radius2) {
        None
    } else {
        smallest_ahead(t0, t1)
    }
}

/// The distance to a sphere along a ray whose line crosses it, given the two roots
/// of its equation.
pub fn nearest_root(t0: u32, t1: u32) -> (root: Option<u32>)
    ensures
        root == smallest_ahead(t0, t1),
{
    let first = is_ahead(t0);
    let second = is_ahead(t1);
    if first && (!second || le(t0, t1)) {
        Some(t0)
    } else if second {
        Some(t1)
    } else {
        None
    }
}

/// The distance at which a ray hits a sphere, given `d2`, the squared distance of
/// the centre from the ray's line, `radius2`, the squared radius, and the two roots
/// `t0` and `t1` of the sphere's equation along the ray.
pub fn intersect(d2: u32, radius2: u32, t0: u32, t1: u32) -> (distance: Option<u32>)
    ensures
        distance == hit(d2, radius2, t0, t1),
        distance matches Some(d) ==> ahead(d),
{
    if lt(radius2, d2) {
        None
    } else {
        nearest_root(t0, t1)
    }
}

} // verus!
