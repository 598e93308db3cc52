//! IEEE 754 single-precision numbers, read from their 32-bit patterns.
//!
//! A pattern is one sign bit, eight exponent bits and twenty-three fraction
//! bits. The functions here say what such a pattern stands for and how two of
//! them compare, in integer arithmetic alone.

use vstd::prelude::*;
use vstd::arithmetic::power2::{lemma_pow2_pos, lemma_pow2_strictly_increases, lemma_pow2_unfold, pow2};

verus! {

/// The pattern with only the sign bit set: negative zero.
pub const SIGN_BIT: u32 = 0x8000_0000;

/// The pattern of positive infinity: every exponent bit set, no fraction bit.
pub const INFINITY_BITS: u32 = 0x7f80_0000;

/// The number of distinct fractions under one exponent, two to the power 23.
pub const FRACTIONS: u32 = 0x80_0000;

/// Whether the sign bit is set.
pub open spec fn sign_negative(bits: u32) -> bool {
    bits >= SIGN_BIT
}

/// The pattern without its sign bit.
pub open spec fn magnitude(bits: u32) -> nat {
    if bits >= SIGN_BIT {
        (bits - SIGN_BIT) as nat
    } else {
        bits as nat
    }
}

/// The eight exponent bits, as a number from 0 to 255.
pub open spec fn exponent_field(bits: u32) -> nat {
    magnitude(bits) / (FRACTIONS as nat)
}

/// The twenty-three fraction bits.
pub open spec fn fraction_field(bits: u32) -> nat {
    magnitude(bits) % (FRACTIONS as nat)
}

/// Not a number: every exponent bit set and some fraction bit set.
pub open spec fn is_nan(bits: u32) -> bool {
    exponent_field(bits) == 255 && fraction_field(bits) != 0
}

/// Positive or negative infinity.
pub open spec fn is_infinite(bits: u32) -> bool {
    exponent_field(bits) == 255 && fraction_field(bits) == 0
}

/// A zero, a subnormal or a normal number.
pub open spec fn spec_is_finite(bits: u32) -> bool {
    exponent_field(bits) < 255
}

/// The absolute value of a finite pattern, multiplied by two to the power 149
/// so that it is a whole number. Under exponent field 0 the fraction counts
/// alone (zero and the subnormals); under any other the leading one is added
/// and each step of the exponent doubles the value.
pub open spec fn scaled_magnitude(bits: u32) -> nat {
    if exponent_field(bits) == 0 {
        fraction_field(bits)
    } else {
        (FRACTIONS as nat + fraction_field(bits)) * pow2((exponent_field(bits) - 1) as nat)
    }
}

/// The value of a finite pattern, multiplied by two to the power 149.
pub open spec fn scaled_value(bits: u32) -> int {
    if sign_negative(bits) {
        -(scaled_magnitude(bits) as int)
    } else {
        scaled_magnitude(bits) as int
    }
}

/// The numeric comparison `a < b`. It is false as soon as one side is not a
/// number; the two zeros are equal; negative infinity is below every other
/// number and positive infinity above.
pub open spec fn spec_less_than(a: u32, b: u32) -> bool {
    &&& !is_nan(a)
    &&& !is_nan(b)
    &&& if spec_is_finite(a) && spec_is_finite(b) {
        scaled_value(a) < scaled_value(b)
    } else if is_infinite(a) {
        sign_negative(a) && !(is_infinite(b) && sign_negative(b))
    } else {
        !sign_negative(b)
    }
}

/// The place of a pattern in the total order of all patterns: negative
/// patterns from the largest magnitude up to negative zero, then positive
/// zero and the positive patterns by rising magnitude. Not-a-number patterns
/// lie beyond the infinities on either side.
pub open spec fn total_order_key(bits: u32) -> int {
    if sign_negative(bits) {
        -(magnitude(bits) as int) - 1
    } else {
        magnitude(bits) as int
    }
}

/// Tells whether a pattern is a finite number.
#[verifier::when_used_as_spec(spec_is_finite)]
pub fn is_finite(bits: u32) -> (finite: bool)
    ensures
        finite == spec_is_finite(bits),
{
    let magnitude: u32 = if bits >= SIGN_BIT { bits - SIGN_BIT } else { bits };
    magnitude < INFINITY_BITS
}

/// Among finite patterns a larger magnitude stands for a larger absolute
/// value: the patterns are laid out in the order of the numbers.
pub proof fn lemma_scaled_magnitude_increases(a: u32, b: u32)
    requires
        spec_is_finite(a),
        spec_is_finite(b),
        magnitude(a) < magnitude(b),
    ensures
        scaled_magnitude(a) < scaled_magnitude(b),
{
    let fa = fraction_field(a) as int;
    let fb = fraction_field(b) as int;
    let ea = exponent_field(a);
    let eb = exponent_field(b);
    let unit = FRACTIONS as int;
    assert(ea <= eb);
    if eb == 0 {
    } else {
        let pb = pow2((eb - 1) as nat) as int;
        lemma_pow2_pos((eb - 1) as nat);
        if ea == eb {
            assert((unit + fa) * pb < (unit + fb) * pb) by (nonlinear_arith)
                requires
                    fa < fb,
                    pb > 0,
            ;
        } else if ea == 0 {
            assert(unit <= (unit + fb) * pb) by (nonlinear_arith)
                requires
                    fb >= 0,
                    pb >= 1,
                    unit > 0,
            ;
        } else {
            let pa = pow2((ea - 1) as nat) as int;
            lemma_pow2_pos((ea - 1) as nat);
            lemma_pow2_unfold(ea);
            if ea < eb - 1 {
                lemma_pow2_strictly_increases(ea, (eb - 1) as nat);
            }
            assert(2 * pa <= pb);
            assert((unit + fa) * pa < (unit + fb) * pb) by (nonlinear_arith)
                requires
                    0 <= fa < unit,
                    0 <= fb,
                    pa > 0,
                    2 * pa <= pb,
            ;
        }
    }
}

/// Only the two zeros have absolute value zero.
pub proof fn lemma_scaled_magnitude_zero(a: u32)
    requires
        spec_is_finite(a),
    ensures
        scaled_magnitude(a) == 0 <==> magnitude(a) == 0,
{
    if exponent_field(a) != 0 {
        let p = pow2((exponent_field(a) - 1) as nat) as int;
        let f = fraction_field(a) as int;
        let unit = FRACTIONS as int;
        lemma_pow2_pos((exponent_field(a) - 1) as nat);
        assert((unit + f) * p > 0) by (nonlinear_arith)
            requires
                f >= 0,
                unit > 0,
                p > 0,
        ;
    }
}

/// Finite patterns lie in the order of their absolute values: the greater
/// magnitude stands for the greater absolute value, and only the two zeros
/// stand for zero.
pub proof fn lemma_magnitude_orders_finite_patterns(a: u32, b: u32)
    requires
        spec_is_finite(a),
        spec_is_finite(b),
    ensures
        magnitude(a) < magnitude(b) <==> scaled_magnitude(a) < scaled_magnitude(b),
        magnitude(b) < magnitude(a) <==> scaled_magnitude(b) < scaled_magnitude(a),
        scaled_magnitude(a) == 0 <==> magnitude(a) == 0,
        scaled_magnitude(b) == 0 <==> magnitude(b) == 0,
{
    lemma_scaled_magnitude_zero(a);
    lemma_scaled_magnitude_zero(b);
    if magnitude(a) < magnitude(b) {
        lemma_scaled_magnitude_increases(a, b);
    }
    if magnitude(b) < magnitude(a) {
        lemma_scaled_magnitude_increases(b, a);
    }
}

/// On numbers the total order agrees with the numeric one. A smaller number
/// comes earlier; and of two patterns the earlier one is the smaller number,
/// unless they are negative and positive zero, which are equal as numbers.
pub proof fn lemma_total_order_agrees_with_less_than(a: u32, b: u32)
    requires
        !is_nan(a),
        !is_nan(b),
    ensures
        spec_less_than(a, b) ==> total_order_key(a) < total_order_key(b),
        total_order_key(a) < total_order_key(b) ==> spec_less_than(a, b) || (magnitude(a) == 0
            && magnitude(b) == 0),
{
    if spec_is_finite(a) && spec_is_finite(b) {
        lemma_magnitude_orders_finite_patterns(a, b);
    }
}

/// Tells whether `a < b` holds of the two numbers.
#[verifier::when_used_as_spec(spec_less_than)]
pub fn less_than(a: u32, b: u32) -> (less: bool)
    ensures
        less == spec_less_than(a, b),
{
    let negative_a = a >= SIGN_BIT;
    let negative_b = b >= SIGN_BIT;
    let magnitude_a: u32 = if negative_a { a - SIGN_BIT } else { a };
    let magnitude_b: u32 = if negative_b { b - SIGN_BIT } else { b };
    if magnitude_a > INFINITY_BITS || magnitude_b > INFINITY_BITS {
        return false;
    }
    proof {
        if spec_is_finite(a) && spec_is_finite(b) {
            lemma_magnitude_orders_finite_patterns(a, b);
        }
    }
    if negative_a {
        if negative_b {
            magnitude_b < magnitude_a
        } else {
            magnitude_a != 0 || magnitude_b != 0
        }
    } else {
        if negative_b {
            false
        } else {
            magnitude_a < magnitude_b
        }
    }
}

/// Tells whether `a` comes strictly before `b` in the total order.
pub fn total_order_less(a: u32, b: u32) -> (less: bool)
    ensures
        less == (total_order_key(a) < total_order_key(b)),
{
    let key_a: i64 = if a >= SIGN_BIT { -((a - SIGN_BIT) as i64) - 1 } else { a as i64 };
    let key_b: i64 = if b >= SIGN_BIT { -((b - SIGN_BIT) as i64) - 1 } else { b as i64 };
    key_a < key_b
}

} // verus!
