//! Configuration numbers: doubles, held as their bits.
//!
//! A double of 64 bits is a sign in the top bit, an exponent in the next 11,
//! and a fraction in the low 52. Sizes and waits are read from it as whole
//! numbers, the way a conversion of the double to an unsigned integer gives
//! them: the part after the point is dropped, a value below zero or no number
//! at all gives zero, and a value too large gives the largest integer.

use vstd::arithmetic::power2::{lemma2_to64, lemma_pow2_strictly_increases, pow2};
use vstd::bits::{lemma_u64_shl_is_mul, lemma_u64_shr_is_div};
use vstd::prelude::*;

verus! {

/// Whether the sign bit is set.
pub open spec fn negative(bits: u64) -> bool {
    bits >= 0x8000_0000_0000_0000
}

/// The exponent field.
pub open spec fn exponent(bits: u64) -> int {
    (bits as int / 0x10_0000_0000_0000) % 0x800
}

/// The fraction field.
pub open spec fn fraction(bits: u64) -> int {
    bits as int % 0x10_0000_0000_0000
}

/// The whole part of the double with these bits, within `u64`: the fraction
/// with its leading one, scaled by the exponent, rounded towards zero.
pub open spec fn whole(bits: u64) -> int {
    let scale = exponent(bits);
    let digits = 0x10_0000_0000_0000 + fraction(bits);
    if negative(bits) || scale < 1023 || (scale == 2047 && fraction(bits) != 0) {
        0
    } else if scale >= 1087 {
        u64::MAX as int
    } else if scale >= 1075 {
        digits * pow2((scale - 1075) as nat)
    } else {
        digits / (pow2((1075 - scale) as nat) as int)
    }
}

/// The whole part of the double with these bits, within `usize`.
pub open spec fn count(bits: u64) -> int {
    if whole(bits) > usize::MAX {
        usize::MAX as int
    } else {
        whole(bits)
    }
}

/// The whole part of the double with these bits, as a `u64`.
pub fn to_u64(bits: u64) -> (r: u64)
    ensures
        r == whole(bits),
{
    let scale: u64 = (bits >> 52) & 0x7ff;
    let part: u64 = bits & 0xf_ffff_ffff_ffff;
    assert((bits >> 52) & 0x7ff == (bits / 0x10_0000_0000_0000) % 0x800) by (bit_vector);
    assert(bits & 0xf_ffff_ffff_ffff == bits % 0x10_0000_0000_0000) by (bit_vector);
    if bits >= 0x8000_0000_0000_0000 || scale < 1023 || (scale == 2047 && part != 0) {
        return 0;
    }
    if scale >= 1087 {
        return u64::MAX;
    }
    let digits: u64 = part + 0x10_0000_0000_0000;
    if scale >= 1075 {
        let by: u64 = scale - 1075;
        proof {
            lemma2_to64();
            if by < 11 {
                lemma_pow2_strictly_increases(by as nat, 11);
            }
            assert(digits * pow2(by as nat) <= u64::MAX) by (nonlinear_arith)
                requires
                    digits < 0x20_0000_0000_0000,
                    pow2(by as nat) <= 0x800,
            ;
            lemma_u64_shl_is_mul(digits, by);
        }
        digits << by
    } else {
        let by: u64 = 1075 - scale;
        proof {
            lemma_u64_shr_is_div(digits, by);
        }
        digits >> by
    }
}

/// The whole part of the double with these bits, as a `usize`.
pub fn to_usize(bits: u64) -> (r: usize)
    ensures
        r == count(bits),
{
    let value: u64 = to_u64(bits);
    if value > usize::MAX as u64 {
        usize::MAX
    } else {
        value as usize
    }
}

} // verus!
