//! IEEE-754 binary64 values handled through their bit patterns
//! (`f64::to_bits`): equality, order, finiteness, sign against zero and
//! one-ulp steps, all exact and integer-only.
use vstd::prelude::*;

verus! {

/// Bits of the exponent field.
pub const EXPONENT_MASK: u64 = 0x7FF0_0000_0000_0000u64;

/// Bits of the significand field.
pub const SIGNIFICAND_MASK: u64 = 0x000F_FFFF_FFFF_FFFFu64;

/// The sign bit.
pub const SIGN_BIT: u64 = 0x8000_0000_0000_0000u64;

/// Bits of the largest finite value, `f64::MAX`.
pub const MAX_FINITE: u64 = 0x7FEF_FFFF_FFFF_FFFFu64;

/// Whether a bit pattern is a NaN.
pub open spec fn f64_bits_is_nan(b: u64) -> bool {
    (b & EXPONENT_MASK) == EXPONENT_MASK && (b & SIGNIFICAND_MASK) != 0
}

/// Whether a bit pattern is finite (neither infinite nor NaN).
pub open spec fn f64_bits_is_finite(b: u64) -> bool {
    (b & EXPONENT_MASK) != EXPONENT_MASK
}

/// Whether the value is greater than zero (`x > 0.0`): not NaN, sign bit
/// clear, and not `+0.0`.
pub open spec fn f64_bits_is_positive(b: u64) -> bool {
    !f64_bits_is_nan(b) && b < SIGN_BIT && b != 0
}

/// Whether the value is less than zero (`x < 0.0`): not NaN, sign bit set,
/// and not `-0.0`.
pub open spec fn f64_bits_is_negative(b: u64) -> bool {
    !f64_bits_is_nan(b) && b > SIGN_BIT
}

/// The place of a value on the number line as an integer that `<` orders
/// as it orders the values: both zeros have place 0, positive values their
/// bit pattern, negative values minus their magnitude's pattern.
pub open spec fn f64_bits_rank(b: u64) -> int {
    if b < SIGN_BIT {
        b as int
    } else {
        SIGN_BIT as int - b as int
    }
}

/// `a < b` on two values given by their bit patterns (false with a NaN).
pub open spec fn f64_bits_lt(a: u64, b: u64) -> bool {
    !f64_bits_is_nan(a) && !f64_bits_is_nan(b) && f64_bits_rank(a) < f64_bits_rank(b)
}

/// `a <= b` on two values given by their bit patterns (false with a NaN).
pub open spec fn f64_bits_le(a: u64, b: u64) -> bool {
    !f64_bits_is_nan(a) && !f64_bits_is_nan(b) && f64_bits_rank(a) <= f64_bits_rank(b)
}

/// Whether a bit pattern is a NaN.
pub fn is_nan_bits(b: u64) -> (r: bool)
    ensures
        r == f64_bits_is_nan(b),
{
    (b & EXPONENT_MASK) == EXPONENT_MASK && (b & SIGNIFICAND_MASK) != 0
}

/// `a < b` on two values given by their bit patterns.
pub fn lt_bits(a: u64, b: u64) -> (r: bool)
    ensures
        r == f64_bits_lt(a, b),
{
    if is_nan_bits(a) || is_nan_bits(b) {
        false
    } else if a < SIGN_BIT && b < SIGN_BIT {
        a < b
    } else if a >= SIGN_BIT && b < SIGN_BIT {
        !(a == SIGN_BIT && b == 0)
    } else if a < SIGN_BIT {
        false
    } else {
        a > b
    }
}

/// `a <= b` on two values given by their bit patterns.
pub fn le_bits(a: u64, b: u64) -> (r: bool)
    ensures
        r == f64_bits_le(a, b),
{
    if is_nan_bits(a) || is_nan_bits(b) {
        false
    } else if a < SIGN_BIT && b < SIGN_BIT {
        a <= b
    } else if a >= SIGN_BIT && b < SIGN_BIT {
        true
    } else if a < SIGN_BIT {
        a == 0 && b == SIGN_BIT
    } else {
        a >= b
    }
}

/// Whether a bit pattern is finite.
pub fn is_finite_bits(b: u64) -> (r: bool)
    ensures
        r == f64_bits_is_finite(b),
{
    (b & EXPONENT_MASK) != EXPONENT_MASK
}

/// `x > 0.0` on a value given by its bit pattern.
pub fn is_positive_bits(b: u64) -> (r: bool)
    ensures
        r == f64_bits_is_positive(b),
{
    let nan = (b & EXPONENT_MASK) == EXPONENT_MASK && (b & SIGNIFICAND_MASK) != 0;
    !nan && b < SIGN_BIT && b != 0
}

/// `x < 0.0` on a value given by its bit pattern.
pub fn is_negative_bits(b: u64) -> (r: bool)
    ensures
        r == f64_bits_is_negative(b),
{
    let nan = (b & EXPONENT_MASK) == EXPONENT_MASK && (b & SIGNIFICAND_MASK) != 0;
    !nan && b > SIGN_BIT
}

/// IEEE-754 equality of two values given by their bit patterns: neither is
/// NaN, and the patterns are equal or both are zero (of either sign).
pub open spec fn f64_bits_equal(a: u64, b: u64) -> bool {
    !f64_bits_is_nan(a) && !f64_bits_is_nan(b) && (a == b || ((a & !SIGN_BIT) == 0 && (b
        & !SIGN_BIT) == 0))
}

/// `==` on two values given by their bit patterns.
pub fn f64_bits_eq(a: u64, b: u64) -> (r: bool)
    ensures
        r == f64_bits_equal(a, b),
{
    let a_nan = (a & EXPONENT_MASK) == EXPONENT_MASK && (a & SIGNIFICAND_MASK) != 0;
    let b_nan = (b & EXPONENT_MASK) == EXPONENT_MASK && (b & SIGNIFICAND_MASK) != 0;
    !a_nan && !b_nan && (a == b || ((a & !SIGN_BIT) == 0 && (b & !SIGN_BIT) == 0))
}

/// The value one ulp toward `+∞`: infinities and NaN are unchanged, both
/// zeros step to the smallest positive subnormal.
pub open spec fn next_up_bits(b: u64) -> u64 {
    if !f64_bits_is_finite(b) {
        b
    } else if b == 0 || b == SIGN_BIT {
        1
    } else if b < SIGN_BIT {
        (b + 1) as u64
    } else {
        (b - 1) as u64
    }
}

/// The value one ulp toward `-∞`: infinities and NaN are unchanged, both
/// zeros step to the smallest negative subnormal.
pub open spec fn next_down_bits(b: u64) -> u64 {
    if !f64_bits_is_finite(b) {
        b
    } else if b == 0 || b == SIGN_BIT {
        (SIGN_BIT + 1) as u64
    } else if b < SIGN_BIT {
        (b - 1) as u64
    } else {
        (b + 1) as u64
    }
}

proof fn lemma_finite_bounds(b: u64)
    ensures
        f64_bits_is_finite(b) && b < SIGN_BIT ==> b <= MAX_FINITE,
        f64_bits_is_finite(b) && b >= SIGN_BIT ==> b <= 0xFFEF_FFFF_FFFF_FFFFu64,
{
    assert(((b & 0x7FF0_0000_0000_0000u64) != 0x7FF0_0000_0000_0000u64 && b
        < 0x8000_0000_0000_0000u64) ==> b <= 0x7FEF_FFFF_FFFF_FFFFu64) by (bit_vector);
    assert(((b & 0x7FF0_0000_0000_0000u64) != 0x7FF0_0000_0000_0000u64 && b
        >= 0x8000_0000_0000_0000u64) ==> b <= 0xFFEF_FFFF_FFFF_FFFFu64) by (bit_vector);
}

/// The next value toward `+∞` (one ulp up).
pub fn next_up(b: u64) -> (r: u64)
    ensures
        r == next_up_bits(b),
{
    proof {
        lemma_finite_bounds(b);
    }
    if (b & EXPONENT_MASK) == EXPONENT_MASK {
        return b;
    }
    if b == 0 || b == SIGN_BIT {
        return 1;
    }
    if b < SIGN_BIT {
        b + 1
    } else {
        b - 1
    }
}

/// The next value toward `-∞` (one ulp down).
pub fn next_down(b: u64) -> (r: u64)
    ensures
        r == next_down_bits(b),
{
    proof {
        lemma_finite_bounds(b);
    }
    if (b & EXPONENT_MASK) == EXPONENT_MASK {
        return b;
    }
    if b == 0 || b == SIGN_BIT {
        return SIGN_BIT + 1;
    }
    if b < SIGN_BIT {
        b - 1
    } else {
        b + 1
    }
}

/// One ulp up and one ulp down undo each other on finite values, except at
/// the largest finite value (whose step up is `+∞`) and at `-0.0` (which
/// comes back as `+0.0`, an equal value).
pub proof fn lemma_next_down_undoes_next_up(b: u64)
    requires
        f64_bits_is_finite(b),
        b != MAX_FINITE,
        b != SIGN_BIT,
    ensures
        next_down_bits(next_up_bits(b)) == b,
{
    lemma_finite_bounds(b);
    let u = next_up_bits(b);
    assert((b < 0x7FEF_FFFF_FFFF_FFFFu64) ==> (((b + 1) as u64) & 0x7FF0_0000_0000_0000u64)
        != 0x7FF0_0000_0000_0000u64) by (bit_vector);
    assert((b > 0x8000_0000_0000_0000u64 && (b & 0x7FF0_0000_0000_0000u64)
        != 0x7FF0_0000_0000_0000u64) ==> (((b - 1) as u64) & 0x7FF0_0000_0000_0000u64)
        != 0x7FF0_0000_0000_0000u64) by (bit_vector);
    assert((1u64 & 0x7FF0_0000_0000_0000u64) != 0x7FF0_0000_0000_0000u64) by (bit_vector);
}

/// One ulp down and one ulp up undo each other on finite values, except at
/// the most negative finite value (whose step down is `-∞`) and at `+0.0`
/// (which comes back as `-0.0`, an equal value).
pub proof fn lemma_next_up_undoes_next_down(b: u64)
    requires
        f64_bits_is_finite(b),
        b != 0xFFEF_FFFF_FFFF_FFFFu64,
        b != 0,
    ensures
        next_up_bits(next_down_bits(b)) == b,
{
    lemma_finite_bounds(b);
    assert((b > 0 && b < 0x8000_0000_0000_0000u64 && (b & 0x7FF0_0000_0000_0000u64)
        != 0x7FF0_0000_0000_0000u64) ==> (((b - 1) as u64)
        & 0x7FF0_0000_0000_0000u64) != 0x7FF0_0000_0000_0000u64) by (bit_vector);
    assert((b >= 0x8000_0000_0000_0000u64 && b < 0xFFEF_FFFF_FFFF_FFFFu64) ==> (((b + 1) as u64)
        & 0x7FF0_0000_0000_0000u64) != 0x7FF0_0000_0000_0000u64) by (bit_vector);
    assert((0x8000_0000_0000_0001u64 & 0x7FF0_0000_0000_0000u64) != 0x7FF0_0000_0000_0000u64)
        by (bit_vector);
}

} // verus!
