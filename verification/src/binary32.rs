//! IEEE 754 binary32 values held as their bit patterns.
//!
//! A `u32` here is the bit pattern of an `f32` (the result of `f32::to_bits`).
//! The model gives every non-NaN pattern an integer `value`: for a finite
//! pattern it is the exact real value times 2^149 (2^-149 being the smallest
//! subnormal, every finite binary32 value is an integer multiple of it); the
//! two infinities are placed beyond every finite value. Comparisons of the
//! library are proved against this model.
use vstd::arithmetic::power2::*;
use vstd::prelude::*;

verus! {

/// Bit pattern of `+0.0`.
pub const ZERO: u32 = 0x0000_0000;

/// Bit pattern of `1.0`.
pub const ONE: u32 = 0x3f80_0000;

/// Bit pattern of `+infinity`, which is also the largest magnitude that is not a NaN.
pub const INFINITY_MAGNITUDE: u32 = 0x7f80_0000;

/// Whether the sign bit is set.
pub open spec fn sign_bit(b: u32) -> bool {
    b >= 0x8000_0000
}

/// The pattern without its sign bit.
pub open spec fn magnitude(b: u32) -> nat {
    (b % 0x8000_0000) as nat
}

/// The 8-bit biased exponent of a magnitude.
pub open spec fn exponent_field(m: nat) -> nat {
    m / 0x80_0000
}

/// The 23-bit fraction of a magnitude.
pub open spec fn fraction_field(m: nat) -> nat {
    m % 0x80_0000
}

/// A NaN: all exponent bits set and a nonzero fraction.
pub open spec fn is_nan(b: u32) -> bool {
    exponent_field(magnitude(b)) == 255 && fraction_field(magnitude(b)) != 0
}

/// An infinity: all exponent bits set and a zero fraction.
pub open spec fn is_infinite(b: u32) -> bool {
    exponent_field(magnitude(b)) == 255 && fraction_field(magnitude(b)) == 0
}

/// The exact absolute value of a finite magnitude, in units of 2^-149.
/// Subnormals (exponent 0) are `fraction * 2^-149`; normals are
/// `(2^23 + fraction) * 2^(exponent - 150)`.
pub open spec fn scaled_magnitude(m: nat) -> nat {
    if exponent_field(m) == 0 {
        fraction_field(m)
    } else {
        (0x80_0000 + fraction_field(m)) * pow2((exponent_field(m) - 1) as nat)
    }
}

/// The absolute value used for ordering: exact for finite magnitudes, and
/// 2^278 (above every finite one, which stay below 2^277) for infinity.
pub open spec fn ordered_magnitude(m: nat) -> nat {
    if exponent_field(m) == 255 {
        pow2(278)
    } else {
        scaled_magnitude(m)
    }
}

/// The value of a non-NaN pattern on the integer scale of this module.
pub open spec fn value(b: u32) -> int {
    if sign_bit(b) {
        -(ordered_magnitude(magnitude(b)) as int)
    } else {
        ordered_magnitude(magnitude(b)) as int
    }
}

/// `a < b` as IEEE 754 defines it: false whenever either side is a NaN.
pub open spec fn float_lt(a: u32, b: u32) -> bool {
    !is_nan(a) && !is_nan(b) && value(a) < value(b)
}

/// `a <= b` as IEEE 754 defines it.
pub open spec fn float_le(a: u32, b: u32) -> bool {
    !is_nan(a) && !is_nan(b) && value(a) <= value(b)
}

/// `a == b` as IEEE 754 defines it: a NaN equals nothing, and `-0.0 == +0.0`.
pub open spec fn float_eq(a: u32, b: u32) -> bool {
    !is_nan(a) && !is_nan(b) && value(a) == value(b)
}

/// Every finite magnitude lies in `[2^(e+22), 2^(e+23))` for a nonzero
/// exponent `e`, and below `2^23` for exponent 0.
proof fn lemma_scaled_bounds(m: nat)
    requires
        exponent_field(m) < 255,
    ensures
        scaled_magnitude(m) < pow2(exponent_field(m) + 23),
        exponent_field(m) >= 1 ==> pow2(exponent_field(m) + 22) <= scaled_magnitude(m),
{
    let e = exponent_field(m);
    let f = fraction_field(m);
    lemma2_to64();
    assert(pow2(23) == 0x80_0000) by {
        lemma_pow2_unfold(23);
    }
    assert(pow2(24) == 0x100_0000) by {
        lemma_pow2_unfold(24);
    }
    if e == 0 {
        assert(f < 0x80_0000);
    } else {
        let p = pow2((e - 1) as nat);
        lemma_pow2_pos((e - 1) as nat);
        lemma_pow2_adds((e - 1) as nat, 24);
        lemma_pow2_adds((e - 1) as nat, 23);
        assert((e - 1) as nat + 24 == e + 23);
        assert((e - 1) as nat + 23 == e + 22);
        assert((0x80_0000 + f) * p < 0x100_0000 * p) by (nonlinear_arith)
            requires
                f < 0x80_0000,
                p > 0,
        ;
        assert(0x80_0000 * p <= (0x80_0000 + f) * p) by (nonlinear_arith)
            requires
                p > 0,
        ;
        assert(pow2(e + 23) == p * 0x100_0000);
        assert(pow2(e + 22) == p * 0x80_0000);
    }
}

/// `ordered_magnitude` is strictly increasing on the magnitudes that are not NaNs.
proof fn lemma_ordered_magnitude_increasing(m1: nat, m2: nat)
    requires
        m1 < m2 <= 0x7f80_0000,
    ensures
        ordered_magnitude(m1) < ordered_magnitude(m2),
{
    let e1 = exponent_field(m1);
    let e2 = exponent_field(m2);
    assert(e1 <= e2);
    assert(e1 < 255);
    lemma_scaled_bounds(m1);
    if e2 == 255 {
        if e1 + 23 < 278 {
            lemma_pow2_strictly_increases(e1 + 23, 278);
        }
    } else if e1 < e2 {
        lemma_scaled_bounds(m2);
        if e1 + 23 < e2 + 22 {
            lemma_pow2_strictly_increases(e1 + 23, e2 + 22);
        }
    } else {
        let f1 = fraction_field(m1);
        let f2 = fraction_field(m2);
        assert(f1 < f2);
        if e1 != 0 {
            let p = pow2((e1 - 1) as nat);
            lemma_pow2_pos((e1 - 1) as nat);
            assert((0x80_0000 + f1) * p < (0x80_0000 + f2) * p) by (nonlinear_arith)
                requires
                    f1 < f2,
                    p > 0,
            ;
        }
    }
}

/// On the magnitudes that are not NaNs, the order of the patterns is the
/// order of the values, and only the zero magnitude has value 0.
proof fn lemma_magnitude_order(m1: nat, m2: nat)
    requires
        m1 <= 0x7f80_0000,
        m2 <= 0x7f80_0000,
    ensures
        m1 < m2 <==> ordered_magnitude(m1) < ordered_magnitude(m2),
        m1 == m2 <==> ordered_magnitude(m1) == ordered_magnitude(m2),
        ordered_magnitude(m1) == 0 <==> m1 == 0,
{
    if m1 < m2 {
        lemma_ordered_magnitude_increasing(m1, m2);
    } else if m2 < m1 {
        lemma_ordered_magnitude_increasing(m2, m1);
    }
    if m1 > 0 {
        lemma_ordered_magnitude_increasing(0, m1);
    }
    assert(ordered_magnitude(0) == 0);
}

/// Whether the pattern is a NaN.
pub fn is_nan_bits(b: u32) -> (r: bool)
    ensures
        r == is_nan(b),
{
    b % 0x8000_0000 > INFINITY_MAGNITUDE
}

/// `a < b` on the values the patterns stand for.
pub fn lt(a: u32, b: u32) -> (r: bool)
    ensures
        r == float_lt(a, b),
{
    let ma = a % 0x8000_0000;
    let mb = b % 0x8000_0000;
    if ma > INFINITY_MAGNITUDE || mb > INFINITY_MAGNITUDE {
        return false;
    }
    proof {
        lemma_magnitude_order(ma as nat, mb as nat);
    }
    let na = a >= 0x8000_0000;
    let nb = b >= 0x8000_0000;
    if !na && !nb {
        ma < mb
    } else if na && nb {
        mb < ma
    } else if na {
        ma != 0 || mb != 0
    } else {
        false
    }
}

/// `a == b` on the values the patterns stand for.
pub fn eq(a: u32, b: u32) -> (r: bool)
    ensures
        r == float_eq(a, b),
        r == (!is_nan(a) && !is_nan(b) && (a == b || (magnitude(a) == 0 && magnitude(b) == 0))),
{
    let ma = a % 0x8000_0000;
    let mb = b % 0x8000_0000;
    if ma > INFINITY_MAGNITUDE || mb > INFINITY_MAGNITUDE {
        return false;
    }
    proof {
        lemma_magnitude_order(ma as nat, mb as nat);
    }
    a == b || (ma == 0 && mb == 0)
}

/// `a <= b` on the values the patterns stand for.
pub fn le(a: u32, b: u32) -> (r: bool)
    ensures
        r == float_le(a, b),
{
    lt(a, b) || eq(a, b)
}

/// `<` is irreflexive and transitive.
pub proof fn lemma_lt_strict_order(a: u32, b: u32, c: u32)
    ensures
        !float_lt(a, a),
        float_lt(a, b) && float_lt(b, c) ==> float_lt(a, c),
        float_lt(a, b) ==> !float_lt(b, a),
{
}

/// Two values that are not NaNs are ordered one way or the other, or equal,
/// and only one of these holds.
pub proof fn lemma_trichotomy(a: u32, b: u32)
    requires
        !is_nan(a),
        !is_nan(b),
    ensures
        float_lt(a, b) || float_eq(a, b) || float_lt(b, a),
        !(float_lt(a, b) && float_eq(a, b)),
        !(float_lt(b, a) && float_eq(a, b)),
        float_le(a, b) <==> float_lt(a, b) || float_eq(a, b),
{
}

/// A NaN is neither below, above nor equal to anything, itself included.
pub proof fn lemma_nan_unordered(a: u32, b: u32)
    requires
        is_nan(a),
    ensures
        !float_lt(a, b),
        !float_lt(b, a),
        !float_eq(a, b),
        !float_eq(b, a),
        !float_le(a, b),
        !float_le(b, a),
{
}

/// Equality is reflexive on the values that are not NaNs, symmetric and transitive.
pub proof fn lemma_eq_equivalence(a: u32, b: u32, c: u32)
    ensures
        !is_nan(a) ==> float_eq(a, a),
        float_eq(a, b) ==> float_eq(b, a),
        float_eq(a, b) && float_eq(b, c) ==> float_eq(a, c),
{
}

/// `-0.0 == +0.0`, and otherwise equal values have equal patterns.
pub proof fn lemma_eq_patterns(a: u32, b: u32)
    requires
        !is_nan(a),
        !is_nan(b),
    ensures
        float_eq(0x8000_0000, 0),
        float_eq(a, b) <==> (a == b || (magnitude(a) == 0 && magnitude(b) == 0)),
{
    assert(magnitude(0x8000_0000) == 0);
    lemma_magnitude_order(magnitude(a), magnitude(b));
}

} // verus!
