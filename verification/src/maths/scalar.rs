//! Single-precision numbers as IEEE 754 bit patterns, with their exact value and order.
//!
//! A pattern holds a sign bit, eight exponent bits and twenty-three fraction bits.
//! Every finite single is a whole multiple of 2^-149, so its value is modelled
//! exactly by the integer [`scaled`]: the value times 2^149.

use vstd::prelude::*;
use vstd::arithmetic::power2::{
    lemma2_to64, lemma_pow2_adds, lemma_pow2_pos, lemma_pow2_strictly_increases,
    lemma_pow2_unfold, pow2,
};

verus! {

/// The pattern of the number one.
pub const ONE: u32 = 0x3f80_0000;

/// The pattern with its sign bit cleared.
pub open spec fn abs_bits(bits: u32) -> nat {
    (bits % 0x8000_0000) as nat
}

/// Whether the sign bit is set.
pub open spec fn negative(bits: u32) -> bool {
    bits >= 0x8000_0000
}

/// Whether the pattern is not a number: all exponent bits set and a fraction that is not zero.
pub open spec fn nan(bits: u32) -> bool {
    abs_bits(bits) > 0x7f80_0000
}

/// The biased exponent, 0 to 255.
pub open spec fn exponent(bits: u32) -> nat {
    abs_bits(bits) / 0x80_0000
}

/// The fraction field, below 2^23.
pub open spec fn fraction(bits: u32) -> nat {
    abs_bits(bits) % 0x80_0000
}

/// The absolute value in units of 2^-149.
///
/// A subnormal (exponent 0) is its fraction; a normal number is its significand
/// `2^23 + fraction`, doubled once for each step of the exponent above 1. An infinity
/// gets what the next binade would start with, so it stands beyond every finite value.
pub open spec fn magnitude(bits: u32) -> nat {
    if exponent(bits) == 0 {
        fraction(bits)
    } else {
        (0x80_0000 + fraction(bits)) * pow2((exponent(bits) - 1) as nat)
    }
}

/// The value in units of 2^-149. Both zeros give 0.
pub open spec fn scaled(bits: u32) -> int {
    if negative(bits) {
        -(magnitude(bits) as int)
    } else {
        magnitude(bits) as int
    }
}

/// What [`scaled`] gives for the number one.
pub open spec fn unit() -> nat {
    pow2(149)
}

/// The number one is 2^149 units.
pub proof fn lemma_one()
    ensures
        scaled(ONE) == unit(),
{
    lemma2_to64();
    lemma_pow2_adds(23, 126);
}

/// Of two patterns that are not NaN, the one with the larger bits below the sign has
/// the larger magnitude.
pub proof fn lemma_magnitude_increases(a: u32, b: u32)
    requires
        abs_bits(a) < abs_bits(b),
        !nan(b),
    ensures
        magnitude(a) < magnitude(b),
{
    let ea = exponent(a);
    let eb = exponent(b);
    let fa = fraction(a);
    let fb = fraction(b);
    assert(ea <= eb);
    if ea == eb {
        assert(fa < fb);
        if ea > 0 {
            let p = pow2((ea - 1) as nat);
            lemma_pow2_pos((ea - 1) as nat);
            assert((0x80_0000 + fa) * p < (0x80_0000 + fb) * p) by (nonlinear_arith)
                requires
                    fa < fb,
                    p > 0,
            ;
        }
    } else {
        let q = pow2((eb - 1) as nat);
        lemma_pow2_pos((eb - 1) as nat);
        if ea == 0 {
            assert(0x80_0000 * 1 <= (0x80_0000 + fb) * q) by (nonlinear_arith)
                requires
                    q >= 1,
                    fb >= 0,
            ;
        } else {
            let p = pow2((ea - 1) as nat);
            lemma_pow2_pos((ea - 1) as nat);
            lemma_pow2_unfold(ea);
            if ea < eb - 1 {
                lemma_pow2_strictly_increases(ea, (eb - 1) as nat);
            }
            assert(2 * p <= q);
            assert((0x80_0000 + fa) * p < (0x80_0000 + fb) * q) by (nonlinear_arith)
                requires
                    fa < 0x80_0000,
                    fb >= 0,
                    p > 0,
                    2 * p <= q,
            ;
        }
    }
}

/// Patterns that are not NaN are ordered by magnitude as their bits below the sign are.
pub proof fn lemma_magnitude_order(a: u32, b: u32)
    requires
        !nan(a),
        !nan(b),
    ensures
        abs_bits(a) < abs_bits(b) <==> magnitude(a) < magnitude(b),
        abs_bits(a) == abs_bits(b) <==> magnitude(a) == magnitude(b),
{
    if abs_bits(a) < abs_bits(b) {
        lemma_magnitude_increases(a, b);
    } else if abs_bits(b) < abs_bits(a) {
        lemma_magnitude_increases(b, a);
    }
}

/// Whether the pattern is not a number.
pub fn is_nan(bits: u32) -> (r: bool)
    ensures
        r == nan(bits),
{
    assert(bits & 0x7fff_ffff == bits % 0x8000_0000) by (bit_vector);
    (bits & 0x7fff_ffff) > 0x7f80_0000
}

/// Whether `a` is less than `b`, as the numbers compare: false where either is NaN,
/// and the two zeros are equal.
pub fn lt(a: u32, b: u32) -> (r: bool)
    ensures
        r == (!nan(a) && !nan(b) && scaled(a) < scaled(b)),
{
    if is_nan(a) || is_nan(b) {
        return false;
    }
    let below_a: u32 = a & 0x7fff_ffff;
    let below_b: u32 = b & 0x7fff_ffff;
    proof {
        assert(a & 0x7fff_ffff == a % 0x8000_0000) by (bit_vector);
        assert(b & 0x7fff_ffff == b % 0x8000_0000) by (bit_vector);
        lemma_magnitude_order(a, b);
        lemma_magnitude_order(a, 0);
        lemma_magnitude_order(b, 0);
    }
    if a >= 0x8000_0000 {
        if b >= 0x8000_0000 {
            below_b < below_a
        } else {
            below_a != 0 || below_b != 0
        }
    } else {
        b < 0x8000_0000 && below_a < below_b
    }
}

/// Whether `a` is less than or equal to `b`, as the numbers compare: false where
/// either is NaN.
pub fn le(a: u32, b: u32) -> (r: bool)
    ensures
        r == (!nan(a) && !nan(b) && scaled(a) <= scaled(b)),
{
    !is_nan(a) && !is_nan(b) && !lt(b, a)
}

} // verus!
