//! What a ray's meeting with a sphere gives, once the quadratic is solved.
//!
//! The `t`s are `f32`s held as their bit patterns (see `binary32`).
use crate::binary32::{float_le, float_lt, is_nan, lt, ZERO};
use vstd::prelude::*;

verus! {

/// The intersections of a ray with a sphere, by their `t`s: none where the
/// discriminant of the ray–sphere quadratic is below zero (the ray misses);
/// else both roots, the lower first (`t2` first unless `t1 < t2`).
pub open spec fn ts_from_roots(discriminant: u32, t1: u32, t2: u32) -> Seq<u32> {
    if float_lt(discriminant, ZERO) {
        seq![]
    } else if float_lt(t1, t2) {
        seq![t1, t2]
    } else {
        seq![t2, t1]
    }
}

/// Chooses the intersections of a ray with a sphere from the discriminant
/// and the two roots `t1 = (-b - sqrt(d)) / 2a`, `t2 = (-b + sqrt(d)) / 2a`.
pub fn intersection_ts(discriminant: u32, t1: u32, t2: u32) -> (r: Vec<u32>)
    ensures
        r@ == ts_from_roots(discriminant, t1, t2),
        r@.len() == 0 <==> float_lt(discriminant, ZERO),
        !float_lt(discriminant, ZERO) ==> r@.len() == 2 && ((r@[0] == t1 && r@[1] == t2) || (
        r@[0] == t2 && r@[1] == t1)),
        !float_lt(discriminant, ZERO) ==> r@.to_multiset() =~= seq![t1, t2].to_multiset(),
        !float_lt(discriminant, ZERO) ==> !float_lt(r@[1], r@[0]),
        r@.len() == 2 && !is_nan(t1) && !is_nan(t2) ==> float_le(r@[0], r@[1]),
{
    proof {
        lemma_ts_from_roots(discriminant, t1, t2);
    }
    if lt(discriminant, ZERO) {
        Vec::new()
    } else if lt(t1, t2) {
        vec![t1, t2]
    } else {
        vec![t2, t1]
    }
}

/// A ray misses exactly when the discriminant is below zero; otherwise it
/// meets the sphere at exactly the two roots, as a multiset, never the
/// higher first, and in increasing order when neither root is a NaN.
pub proof fn lemma_ts_from_roots(discriminant: u32, t1: u32, t2: u32)
    ensures
        ts_from_roots(discriminant, t1, t2).len() == 0 <==> float_lt(discriminant, ZERO),
        !float_lt(discriminant, ZERO) ==> {
            let r = ts_from_roots(discriminant, t1, t2);
            &&& r.len() == 2
            &&& (r[0] == t1 && r[1] == t2) || (r[0] == t2 && r[1] == t1)
            &&& r.to_multiset() =~= seq![t1, t2].to_multiset()
            &&& !float_lt(r[1], r[0])
            &&& !is_nan(t1) && !is_nan(t2) ==> float_le(r[0], r[1])
        },
{
    broadcast use vstd::seq_lib::group_to_multiset_ensures;

    let r = ts_from_roots(discriminant, t1, t2);
    if !float_lt(discriminant, ZERO) {
        assert(r.to_multiset() =~= seq![t1, t2].to_multiset()) by {
            if !float_lt(t1, t2) {
                assert(seq![t2, t1] =~= seq![t2].push(t1));
                assert(seq![t1, t2] =~= seq![t1].push(t2));
                assert(seq![t2] =~= Seq::<u32>::empty().push(t2));
                assert(seq![t1] =~= Seq::<u32>::empty().push(t1));
            }
        }
    }
}

} // verus!
