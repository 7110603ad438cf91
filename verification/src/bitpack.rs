//! Extraction of unsigned bit fields from 32-bit words.

use vstd::prelude::*;
use vstd::arithmetic::power2::pow2;
use vstd::bits::lemma_u64_pow2_no_overflow;
use vstd::bits::lemma_u64_shl_is_mul;

verus! {

/// The value of the bit range `[lsb, lsb + width)` of `w`, bit 0 being the
/// least significant.  The mask is computed in 64 bits so that it is well
/// defined for every width up to 32.
pub open spec fn field_value(w: u32, width: u32, lsb: u32) -> u32
    recommends
        lsb + width <= 32,
{
    (((w as u64) >> (lsb as u64)) & (((1u64 << (width as u64)) - 1) as u64)) as u32
}

/// A left shift of a 32-bit word by up to 32 bits; a shift by the full word
/// width yields zero rather than the host's undefined behaviour.
spec fn shl32(w: u32, bits: u32) -> u32
    recommends
        bits <= 32,
{
    if bits == 32 {
        0u32
    } else {
        w << bits
    }
}

/// A right shift of a 32-bit word by up to 32 bits; a shift by the full word
/// width yields zero rather than the host's undefined behaviour.
spec fn shr32(w: u32, bits: u32) -> u32
    recommends
        bits <= 32,
{
    if bits == 32 {
        0u32
    } else {
        w >> bits
    }
}

fn shl(word: u32, bits: u32) -> (r: u32)
    requires
        bits <= 32,
    ensures
        r == shl32(word, bits),
{
    if bits == 32 {
        0
    } else {
        word << bits
    }
}

fn shr(word: u32, bits: u32) -> (r: u32)
    requires
        bits <= 32,
    ensures
        r == shr32(word, bits),
{
    if bits == 32 {
        0
    } else {
        word >> bits
    }
}

/// Shifting the field's high end to bit 31 and then its low end to bit 0
/// isolates exactly the bits `[lsb, lsb + width)`.
proof fn lemma_shift_pair_extracts_field(w: u32, width: u32, lsb: u32)
    by (bit_vector)
    requires
        lsb + width <= 32,
    ensures
        shr32(shl32(w, (32 - (lsb + width)) as u32), (32 - width) as u32) == field_value(
            w,
            width,
            lsb,
        ),
{
}

/// Returns the unsigned value of the bit range `[lsb, lsb + width)` of `word`.
pub fn getu(word: u32, width: u32, lsb: u32) -> (r: u32)
    requires
        lsb + width <= 32,
    ensures
        r == field_value(word, width, lsb),
{
    let hi = lsb + width;
    proof {
        lemma_shift_pair_extracts_field(word, width, lsb);
    }
    shr(shl(word, 32 - hi), 32 - width)
}

/// An extracted field always fits in its width: `field_value(w, width, lsb)`
/// is below `2^width`.
pub proof fn lemma_field_value_bound(w: u32, width: u32, lsb: u32)
    requires
        lsb + width <= 32,
    ensures
        (field_value(w, width, lsb) as nat) < pow2(width as nat),
{
    assert((field_value(w, width, lsb) as u64) < (1u64 << (width as u64))) by (bit_vector)
        requires
            lsb + width <= 32,
    ;
    assert((1u64 << (width as u64)) == pow2(width as nat)) by {
        lemma_u64_pow2_no_overflow(width as nat);
        lemma_u64_shl_is_mul(1u64, width as u64);
    }
}

} // verus!
