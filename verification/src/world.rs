//! Decisions about a world that rest on the hit of a ray.
//!
//! Intersections are given by their `t`s, `f32`s held as their bit patterns
//! (see `binary32`).
use crate::binary32::{float_le, float_lt, lt, ZERO};
use crate::intersection::{find_hit, is_hit, lemma_hit_exists, lemma_hit_unique};
use vstd::prelude::*;

verus! {

/// A point is in shadow when the ray from it towards the light has a hit
/// closer than the light: `ts` are the intersections of that ray with the
/// world, and `distance` is the distance from the point to the light.
pub open spec fn shadowed(ts: Seq<u32>, distance: u32) -> bool {
    exists|i: int| is_hit(ts, i) && float_lt(ts[i], distance)
}

/// Whether the point is in shadow, from the `t`s of the shadow ray's
/// intersections and the distance to the light.
pub fn is_shadowed(ts: &Vec<u32>, distance: u32) -> (r: bool)
    ensures
        r == shadowed(ts@, distance),
        r == exists|j: int|
            0 <= j < ts@.len() && float_le(ZERO, #[trigger] ts@[j]) && float_lt(ts@[j], distance),
{
    proof {
        lemma_shadowed_iff_nearer_than_light(ts@, distance);
    }
    match find_hit(ts) {
        None => {
            assert(forall|i: int| !is_hit(ts@, i));
            false
        },
        Some(i) => {
            proof {
                assert forall|k: int| is_hit(ts@, k) implies k == i by {
                    lemma_hit_unique(ts@, k, i as int);
                }
            }
            lt(ts[i], distance)
        },
    }
}

/// A point is in shadow exactly when some intersection of the shadow ray
/// in front of the point (`t >= 0.0`) lies nearer than the light.
pub proof fn lemma_shadowed_iff_nearer_than_light(ts: Seq<u32>, distance: u32)
    ensures
        shadowed(ts, distance) <==> exists|j: int|
            0 <= j < ts.len() && float_le(ZERO, #[trigger] ts[j]) && float_lt(ts[j], distance),
{
    if exists|j: int|
        0 <= j < ts.len() && float_le(ZERO, #[trigger] ts[j]) && float_lt(ts[j], distance) {
        let j = choose|j: int|
            0 <= j < ts.len() && float_le(ZERO, #[trigger] ts[j]) && float_lt(ts[j], distance);
        lemma_hit_exists(ts);
        let i = choose|i: int| is_hit(ts, i);
        assert(float_le(ts[i], ts[j]));
        assert(float_lt(ts[i], distance));
    }
}

} // verus!
