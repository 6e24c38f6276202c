//! IEEE-754 single-precision comparisons, computed on bit patterns.
use vstd::prelude::*;

verus! {

/// Bit pattern of `0.0f32`.
pub const F32_ZERO: u32 = 0x0000_0000;

/// Bit pattern of `0.5f32`.
pub const F32_HALF: u32 = 0x3F00_0000;

/// Bit pattern of `1.0f32`.
pub const F32_ONE: u32 = 0x3F80_0000;

/// Bit pattern of `2.0f32`.
pub const F32_TWO: u32 = 0x4000_0000;

/// Bit pattern of positive infinity; every pattern with a larger magnitude is a NaN.
pub const F32_INFINITY: u32 = 0x7F80_0000;

/// The magnitude part of a bit pattern: the pattern with its sign bit cleared.
pub open spec fn magnitude(b: u32) -> int {
    b as int % 0x8000_0000
}

/// Whether the pattern encodes a NaN (all exponent bits set, mantissa not zero).
pub open spec fn is_nan(b: u32) -> bool {
    magnitude(b) > F32_INFINITY
}

/// Whether the pattern encodes `+0.0` or `-0.0`.
pub open spec fn is_zero(b: u32) -> bool {
    magnitude(b) == 0
}

/// `==` on the two `f32` values the patterns encode: NaN equals nothing, the
/// two zeros are equal, and otherwise values are equal exactly when their
/// patterns are.
pub open spec fn f32_eq(a: u32, b: u32) -> bool {
    &&& !is_nan(a)
    &&& !is_nan(b)
    &&& (a == b || (is_zero(a) && is_zero(b)))
}

/// `>= 0.5` on the `f32` value the pattern encodes. Non-negative values are
/// ordered like their patterns; negative values and NaN are not `>= 0.5`.
pub open spec fn f32_ge_half(b: u32) -> bool {
    F32_HALF <= b <= F32_INFINITY
}

/// Two patterns stand for the same knob value: bit for bit, or as equal floats.
pub open spec fn same_value(a: u32, b: u32) -> bool {
    a == b || f32_eq(a, b)
}

/// `==` on `f32`, on bit patterns.
pub fn f32_bits_eq(a: u32, b: u32) -> (r: bool)
    ensures
        r == f32_eq(a, b),
{
    let ma = a % 0x8000_0000;
    let mb = b % 0x8000_0000;
    if ma > F32_INFINITY || mb > F32_INFINITY {
        false
    } else {
        a == b || (ma == 0 && mb == 0)
    }
}

/// `>= 0.5` on `f32`, on a bit pattern.
pub fn f32_bits_ge_half(b: u32) -> (r: bool)
    ensures
        r == f32_ge_half(b),
{
    F32_HALF <= b && b <= F32_INFINITY
}

/// `== 0.0` on `f32`, on a bit pattern.
pub fn f32_bits_is_zero(b: u32) -> (r: bool)
    ensures
        r == f32_eq(b, F32_ZERO),
        r == is_zero(b),
{
    b % 0x8000_0000 == 0
}

/// Knob sameness is reflexive, symmetric and transitive.
pub proof fn lemma_same_value_equivalence(a: u32, b: u32, c: u32)
    ensures
        same_value(a, a),
        same_value(a, b) == same_value(b, a),
        same_value(a, b) && same_value(b, c) ==> same_value(a, c),
{
}

} // verus!
