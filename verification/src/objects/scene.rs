//! The nearest-hit query over the primitives of a scene.

use vstd::prelude::*;
use crate::maths::scalar::{is_nan, lt, nan, scaled};
use crate::objects::intersection::Intersection;

verus! {

/// Whether none of the distances is NaN.
pub open spec fn comparable(distances: Seq<Option<u32>>) -> bool {
    forall|i: int|
        0 <= i < distances.len() ==> (#[trigger] distances[i] matches Some(d) ==> !nan(d))
}

/// Whether `hit` is the nearest among the first `n` primitives: it names one of them
/// with the distance reported for it, no distance among them is smaller, and every
/// primitive before it is farther.
pub open spec fn nearest_within(distances: Seq<Option<u32>>, n: int, hit: Intersection) -> bool {
    &&& hit.object < n <= distances.len()
    &&& distances[hit.object as int] == Some(hit.distance)
    &&& forall|i: int|
        0 <= i < n ==> (#[trigger] distances[i] matches Some(d) ==> scaled(hit.distance) <= scaled(d))
    &&& forall|i: int|
        0 <= i < hit.object ==> (#[trigger] distances[i] matches Some(d) ==> scaled(hit.distance)
            < scaled(d))
}

/// Whether `hit` is the nearest hit of the scene. Of several primitives at the same
/// least distance it is the first in the scene's order.
pub open spec fn nearest(distances: Seq<Option<u32>>, hit: Intersection) -> bool {
    nearest_within(distances, distances.len() as int, hit)
}

/// A scene has at most one nearest hit.
pub proof fn lemma_nearest_is_one(distances: Seq<Option<u32>>, one: Intersection, other: Intersection)
    requires
        nearest(distances, one),
        nearest(distances, other),
    ensures
        one == other,
{
    assert(distances[one.object as int] is Some);
    assert(distances[other.object as int] is Some);
}

/// Whether none of the distances is NaN, so that [`trace`] can compare them.
pub fn is_comparable(distances: &Vec<Option<u32>>) -> (r: bool)
    ensures
        r == comparable(distances@),
{
    let mut i: usize = 0;
    while i < distances.len()
        invariant
            i <= distances@.len(),
            forall|j: int| 0 <= j < i ==> (#[trigger] distances@[j] matches Some(d) ==> !nan(d)),
        decreases distances@.len() - i,
    {
        if let Some(d) = distances[i] {
            if is_nan(d) {
                return false;
            }
        }
        i += 1;
    }
    true
}

/// The nearest hit of a ray, given for each primitive of the scene, in the scene's
/// order, the distance at which the ray meets it, or `None` where it misses.
///
/// There is no hit exactly when the ray misses every primitive.
pub fn trace(distances: &Vec<Option<u32>>) -> (hit: Option<Intersection>)
    requires
        comparable(distances@),
    ensures
        hit is None <==> forall|i: int| 0 <= i < distances@.len() ==> distances@[i] is None,
        hit matches Some(h) ==> nearest(distances@, h),
{
    let mut best: Option<Intersection> = None;
    let mut i: usize = 0;
    while i < distances.len()
        invariant
            i <= distances@.len(),
            comparable(distances@),
            match best {
                Some(h) => nearest_within(distances@, i as int, h),
                None => forall|j: int| 0 <= j < i ==> distances@[j] is None,
            },
        decreases distances@.len() - i,
    {
        if let Some(d) = distances[i] {
            let closer = match best {
                Some(h) => lt(d, h.distance),
                None => true,
            };
            if closer {
                best = Some(Intersection { distance: d, object: i });
            }
        }
        i += 1;
    }
    best
}

} // verus!
