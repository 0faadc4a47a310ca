//! Four-component tuples: points (`w == 1.0`) and vectors (`w == 0.0`).
//!
//! Each component is an `f32` held as its bit pattern (see `binary32`).
use crate::binary32::{float_eq, is_nan, magnitude, sign_bit, value, eq, ONE, ZERO};
use vstd::prelude::*;

verus! {

/// A tuple of four `f32` components, each held as its bit pattern.
#[derive(Clone, Copy, Debug)]
pub struct Tuple {
    pub x: u32,
    pub y: u32,
    pub z: u32,
    pub w: u32,
}

/// The bit pattern of `-b`: the same pattern with the sign bit flipped.
pub open spec fn negated(b: u32) -> u32 {
    if b >= 0x8000_0000 {
        (b - 0x8000_0000) as u32
    } else {
        (b + 0x8000_0000) as u32
    }
}

/// Negates one component.
pub fn negate_component(b: u32) -> (r: u32)
    ensures
        r == negated(b),
        magnitude(r) == magnitude(b),
        sign_bit(r) != sign_bit(b),
        is_nan(r) == is_nan(b),
        !is_nan(b) ==> value(r) == -value(b),
{
    if b >= 0x8000_0000 {
        b - 0x8000_0000
    } else {
        b + 0x8000_0000
    }
}

impl Tuple {
    /// A tuple with the given components.
    pub fn new(x: u32, y: u32, z: u32, w: u32) -> (t: Tuple)
        ensures
            t == (Tuple { x, y, z, w }),
    {
        Tuple { x, y, z, w }
    }

    /// The point `(x, y, z)`: a tuple with `w == 1.0`.
    pub fn point(x: u32, y: u32, z: u32) -> (t: Tuple)
        ensures
            t == (Tuple { x, y, z, w: ONE }),
    {
        Tuple::new(x, y, z, ONE)
    }

    /// The vector `(x, y, z)`: a tuple with `w == 0.0`.
    pub fn vector(x: u32, y: u32, z: u32) -> (t: Tuple)
        ensures
            t == (Tuple { x, y, z, w: ZERO }),
    {
        Tuple::new(x, y, z, ZERO)
    }

    /// Whether `w == 1.0`.
    pub fn is_point(&self) -> (r: bool)
        ensures
            r == float_eq(self.w, ONE),
            r == (self.w == ONE),
    {
        eq(self.w, ONE)
    }

    /// Whether `w == 0.0` (so also for `w == -0.0`).
    pub fn is_vector(&self) -> (r: bool)
        ensures
            r == float_eq(self.w, ZERO),
            r == (magnitude(self.w) == 0),
    {
        eq(self.w, ZERO)
    }
}

impl std::ops::Neg for Tuple {
    type Output = Tuple;

    /// Every component negated.
    fn neg(self) -> (r: Tuple)
        ensures
            r == (Tuple {
                x: negated(self.x),
                y: negated(self.y),
                z: negated(self.z),
                w: negated(self.w),
            }),
    {
        Tuple {
            x: negate_component(self.x),
            y: negate_component(self.y),
            z: negate_component(self.z),
            w: negate_component(self.w),
        }
    }
}

impl vstd::std_specs::ops::NegSpecImpl for Tuple {
    open spec fn obeys_neg_spec() -> bool {
        true
    }

    open spec fn neg_req(self) -> bool {
        true
    }

    open spec fn neg_spec(self) -> Tuple {
        Tuple {
            x: negated(self.x),
            y: negated(self.y),
            z: negated(self.z),
            w: negated(self.w),
        }
    }
}

/// A point is a point and not a vector; a vector is a vector and not a point.
pub proof fn lemma_point_and_vector(x: u32, y: u32, z: u32)
    ensures
        float_eq((Tuple { x, y, z, w: ONE }).w, ONE),
        !float_eq((Tuple { x, y, z, w: ONE }).w, ZERO),
        float_eq((Tuple { x, y, z, w: ZERO }).w, ZERO),
        !float_eq((Tuple { x, y, z, w: ZERO }).w, ONE),
{
    assert(magnitude(ONE) == 0x3f80_0000);
    assert(value(ONE) == 0x80_0000 * vstd::arithmetic::power2::pow2(126));
    assert(value(ONE) != 0) by {
        vstd::arithmetic::power2::lemma_pow2_pos(126);
    }
}

/// No tuple is both a point and a vector.
pub proof fn lemma_not_both(t: Tuple)
    ensures
        !(float_eq(t.w, ONE) && float_eq(t.w, ZERO)),
{
    lemma_point_and_vector(t.x, t.y, t.z);
}

/// Negating twice gives back the same tuple, bit for bit.
pub proof fn lemma_double_negation(b: u32)
    ensures
        negated(negated(b)) == b,
{
}

} // verus!
