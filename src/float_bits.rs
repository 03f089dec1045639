//! Binary64 floating-point values held as their IEEE-754 bit patterns.
//!
//! The library never computes with floating-point numbers; where the wire
//! format carries one, the value travels as its 64-bit pattern, and the few
//! facts the decoders need of it are stated on that pattern.
use vstd::prelude::*;
use vstd::arithmetic::power2::{pow2, lemma_pow2_unfold, lemma_pow2_strictly_increases, lemma2_to64};

verus! {

pub open spec fn fraction_unit() -> nat {
    0x10_0000_0000_0000
}

/// The biased exponent field.
pub open spec fn exponent_of(b: u64) -> nat {
    (b as nat / fraction_unit()) % 2048
}

/// The fraction field.
pub open spec fn fraction_of(b: u64) -> nat {
    b as nat % fraction_unit()
}

/// The sign bit is set.
pub open spec fn is_negative(b: u64) -> bool {
    b as nat >= 0x8000_0000_0000_0000
}

/// The pattern of exactly `1.0`.
pub open spec fn is_one(b: u64) -> bool {
    b == 0x3FF0_0000_0000_0000
}

/// A pattern of `0.0` or `-0.0`, the two values that compare equal to zero.
pub open spec fn is_zero(b: u64) -> bool {
    b == 0 || b == 0x8000_0000_0000_0000
}

/// What `x as u64` gives for the value `x` with pattern `b`: rounded toward
/// zero, negative values and NaN give 0, values too large give `u64::MAX`.
pub open spec fn truncated_u64(b: u64) -> u64 {
    let e = exponent_of(b);
    let m = fraction_unit() + fraction_of(b);
    if e == 2047 {
        if fraction_of(b) == 0 && !is_negative(b) {
            u64::MAX
        } else {
            0
        }
    } else if is_negative(b) || e < 1023 {
        0
    } else if e >= 1075 {
        if m * pow2((e - 1075) as nat) > u64::MAX {
            u64::MAX
        } else {
            (m * pow2((e - 1075) as nat)) as u64
        }
    } else {
        (m / pow2((1075 - e) as nat)) as u64
    }
}

/// Whether the pattern is that of `1.0`.
pub fn bits_are_one(b: u64) -> (r: bool)
    ensures
        r == is_one(b),
{
    b == 0x3FF0_0000_0000_0000
}

/// Whether the pattern is that of a zero.
pub fn bits_are_zero(b: u64) -> (r: bool)
    ensures
        r == is_zero(b),
{
    b == 0 || b == 0x8000_0000_0000_0000
}

fn power_of_two(k: u64) -> (p: u64)
    requires
        k < 64,
    ensures
        p as nat == pow2(k as nat),
{
    let mut p: u64 = 1;
    let mut i: u64 = 0;
    proof {
        lemma2_to64();
    }
    while i < k
        invariant
            i <= k < 64,
            p as nat == pow2(i as nat),
        decreases k - i,
    {
        proof {
            lemma_pow2_unfold((i + 1) as nat);
            lemma_pow2_strictly_increases((i + 1) as nat, 64);
            lemma2_to64();
        }
        p = p * 2;
        i = i + 1;
    }
    p
}

/// The value `x as u64` for the floating-point value `x` with pattern `b`.
pub fn truncate_bits_to_u64(b: u64) -> (r: u64)
    ensures
        r == truncated_u64(b),
{
    let e = (b / 0x10_0000_0000_0000) % 2048;
    let f = b % 0x10_0000_0000_0000;
    let negative = b >= 0x8000_0000_0000_0000;
    if e == 2047 {
        if f == 0 && !negative {
            u64::MAX
        } else {
            0
        }
    } else if negative || e < 1023 {
        0
    } else {
        let m = 0x10_0000_0000_0000 + f;
        if e >= 1075 {
            let shift = e - 1075;
            if shift >= 12 {
                proof {
                    lemma2_to64();
                    if shift > 12 {
                        lemma_pow2_strictly_increases(12, shift as nat);
                    }
                    assert(m * pow2(shift as nat) >= 0x10_0000_0000_0000 * 0x1000) by (nonlinear_arith)
                        requires
                            m >= 0x10_0000_0000_0000,
                            pow2(shift as nat) >= 0x1000,
                    ;
                }
                u64::MAX
            } else {
                let p = power_of_two(shift);
                proof {
                    lemma2_to64();
                    if shift < 11 {
                        lemma_pow2_strictly_increases(shift as nat, 11);
                    }
                    assert(m * p < 0x1_0000_0000_0000_0000) by (nonlinear_arith)
                        requires
                            m < 0x20_0000_0000_0000,
                            p <= 0x800,
                    ;
                }
                m * p
            }
        } else {
            let p = power_of_two(1075 - e);
            proof {
                vstd::arithmetic::power2::lemma_pow2_pos((1075 - e) as nat);
            }
            m / p
        }
    }
}

} // verus!
