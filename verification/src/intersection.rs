//! Ordering intersections by their distance `t` along the ray, and choosing
//! the hit: the intersection with the lowest nonnegative `t`.
//!
//! An intersection is known here by its `t`, an `f32` held as its bit
//! pattern (see `binary32`); a list of intersections by the list of their
//! `t`s, in the same order.
use crate::binary32::{float_eq, float_le, float_lt, is_nan, le, lt, ZERO};
use std::cmp::Ordering;
use vstd::prelude::*;

verus! {

/// How two intersections compare by `t`: `Less` when `a < b`, `Greater`
/// when `a > b`, and `Equal` otherwise (also when either `t` is a NaN).
pub open spec fn t_order(a: u32, b: u32) -> Ordering {
    if float_lt(a, b) {
        Ordering::Less
    } else if float_lt(b, a) {
        Ordering::Greater
    } else {
        Ordering::Equal
    }
}

/// Compares two intersections by their `t`.
pub fn compare_t(a: u32, b: u32) -> (r: Ordering)
    ensures
        r == t_order(a, b),
        r == Ordering::Less <==> float_lt(a, b),
        r == Ordering::Greater <==> float_lt(b, a),
        r == Ordering::Equal <==> !float_lt(a, b) && !float_lt(b, a),
{
    proof {
        lemma_t_order_follows_lt(a, b);
    }
    if lt(a, b) {
        Ordering::Less
    } else if lt(b, a) {
        Ordering::Greater
    } else {
        Ordering::Equal
    }
}

/// The order of intersections is the IEEE `<` on their `t`s: `Less`
/// exactly when `a < b`, `Greater` exactly when `b < a`, and `Equal`
/// exactly when neither holds (for non-NaN `t`s, when `a == b`).
pub proof fn lemma_t_order_follows_lt(a: u32, b: u32)
    ensures
        t_order(a, b) == Ordering::Less <==> float_lt(a, b),
        t_order(a, b) == Ordering::Greater <==> float_lt(b, a),
        t_order(a, b) == Ordering::Equal <==> !float_lt(a, b) && !float_lt(b, a),
        !is_nan(a) && !is_nan(b) ==> (t_order(a, b) == Ordering::Equal <==> float_eq(a, b)),
{
}

/// Swapping the two sides swaps `Less` and `Greater`.
pub proof fn lemma_t_order_antisymmetric(a: u32, b: u32)
    ensures
        t_order(a, b) == Ordering::Less <==> t_order(b, a) == Ordering::Greater,
        t_order(a, b) == Ordering::Equal <==> t_order(b, a) == Ordering::Equal,
{
}

/// Every `t` compares `Equal` to itself.
pub proof fn lemma_t_order_reflexive(a: u32)
    ensures
        t_order(a, a) == Ordering::Equal,
{
}

/// Between `t`s that are not NaNs, `Equal` is exactly float equality.
pub proof fn lemma_t_order_equal_is_float_eq(a: u32, b: u32)
    requires
        !is_nan(a),
        !is_nan(b),
    ensures
        t_order(a, b) == Ordering::Equal <==> float_eq(a, b),
{
}

/// Between `t`s that are not NaNs, each of `Less`, `Equal` and `Greater` is transitive.
pub proof fn lemma_t_order_transitive(a: u32, b: u32, c: u32)
    requires
        !is_nan(a),
        !is_nan(b),
        !is_nan(c),
    ensures
        t_order(a, b) == Ordering::Less && t_order(b, c) == Ordering::Less ==> t_order(a, c)
            == Ordering::Less,
        t_order(a, b) == Ordering::Equal && t_order(b, c) == Ordering::Equal ==> t_order(a, c)
            == Ordering::Equal,
        t_order(a, b) == Ordering::Greater && t_order(b, c) == Ordering::Greater ==> t_order(a, c)
            == Ordering::Greater,
{
}

/// An intersection can be the hit: its `t` is `>= 0.0`.
pub open spec fn in_front(t: u32) -> bool {
    float_le(ZERO, t)
}

/// Index `i` of `ts` is the hit: it is in front of the ray, no intersection
/// in front has a lower `t`, and every earlier one in front has a greater `t`
/// (of equal `t`s, the first is the hit).
pub open spec fn is_hit(ts: Seq<u32>, i: int) -> bool {
    &&& 0 <= i < ts.len()
    &&& in_front(ts[i])
    &&& forall|j: int| 0 <= j < ts.len() && in_front(ts[j]) ==> float_le(ts[i], #[trigger] ts[j])
    &&& forall|j: int| 0 <= j < i && in_front(ts[j]) ==> float_lt(ts[i], #[trigger] ts[j])
}

/// No intersection of `ts` is in front of the ray.
pub open spec fn none_in_front(ts: Seq<u32>) -> bool {
    forall|j: int| 0 <= j < ts.len() ==> !in_front(#[trigger] ts[j])
}

/// Finds the hit among intersections given by their `t`s: the index of the
/// lowest nonnegative `t`, the first of them where several are lowest, or
/// `None` where no `t` is nonnegative.
pub fn find_hit(ts: &Vec<u32>) -> (r: Option<usize>)
    ensures
        r is None <==> none_in_front(ts@),
        r matches Some(i) ==> is_hit(ts@, i as int),
        r is None <==> forall|j: int| 0 <= j < ts@.len() ==> !float_le(ZERO, #[trigger] ts@[j]),
        r matches Some(i) ==> {
            &&& i < ts@.len()
            &&& float_le(ZERO, ts@[i as int])
            &&& forall|j: int|
                0 <= j < ts@.len() && float_le(ZERO, ts@[j]) ==> float_le(
                    ts@[i as int],
                    #[trigger] ts@[j],
                )
            &&& forall|j: int|
                0 <= j < i && float_le(ZERO, ts@[j]) ==> float_lt(ts@[i as int], #[trigger] ts@[j])
        },
{
    let mut best: Option<usize> = None;
    let mut i: usize = 0;
    while i < ts.len()
        invariant
            i <= ts.len(),
            best is None <==> none_in_front(ts@.take(i as int)),
            best matches Some(k) ==> is_hit(ts@.take(i as int), k as int),
        decreases ts.len() - i,
    {
        let t = ts[i];
        let ghost prefix = ts@.take(i as int);
        let ghost next = ts@.take(i + 1);
        assert(forall|j: int| 0 <= j < i ==> next[j] == prefix[j]);
        assert(next[i as int] == t);
        if le(ZERO, t) {
            match best {
                None => {
                    best = Some(i);
                },
                Some(k) => {
                    if lt(t, ts[k]) {
                        best = Some(i);
                    }
                },
            }
        }
        i = i + 1;
    }
    assert(ts@.take(ts.len() as int) =~= ts@);
    best
}

/// There is at most one hit.
pub proof fn lemma_hit_unique(ts: Seq<u32>, i: int, k: int)
    requires
        is_hit(ts, i),
        is_hit(ts, k),
    ensures
        i == k,
{
    if i < k {
        assert(float_lt(ts[k], ts[i]));
        assert(float_le(ts[i], ts[k]));
    } else if k < i {
        assert(float_lt(ts[i], ts[k]));
        assert(float_le(ts[k], ts[i]));
    }
}

/// There is a hit exactly when some intersection is in front of the ray.
pub proof fn lemma_hit_exists(ts: Seq<u32>)
    ensures
        (exists|i: int| is_hit(ts, i)) <==> (exists|j: int|
            0 <= j < ts.len() && float_le(ZERO, #[trigger] ts[j])),
    decreases ts.len(),
{
    if exists|j: int| 0 <= j < ts.len() && float_le(ZERO, #[trigger] ts[j]) {
        let n = ts.len() - 1;
        let prefix = ts.drop_last();
        let last = ts[n];
        assert(forall|j: int| 0 <= j < n ==> prefix[j] == ts[j]);
        lemma_hit_exists(prefix);
        if exists|j: int| 0 <= j < prefix.len() && float_le(ZERO, #[trigger] prefix[j]) {
            let k = choose|k: int| is_hit(prefix, k);
            if in_front(last) && float_lt(last, ts[k]) {
                assert(is_hit(ts, n));
            } else {
                assert(is_hit(ts, k));
            }
        } else {
            let j = choose|j: int| 0 <= j < ts.len() && float_le(ZERO, #[trigger] ts[j]);
            if j < n {
                assert(float_le(ZERO, prefix[j]));
            }
            assert(is_hit(ts, n));
        }
    }
}

} // verus!
