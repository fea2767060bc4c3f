//! PREL31 offsets: a 32-bit word whose low 31 bits are a signed,
//! program-counter-relative offset (bit 30 is the sign bit) and whose high
//! bit is reserved.  The offset is added to the in-memory address of the
//! word itself to form the target absolute address.

use vstd::prelude::*;

verus! {

/// Addition modulo 2^32, the arithmetic of 32-bit addresses.
pub open spec fn wrap_add32(a: u32, b: u32) -> u32 {
    ((a + b) % 0x1_0000_0000) as u32
}

/// Subtraction modulo 2^32.
pub open spec fn wrap_sub32(a: u32, b: u32) -> u32 {
    ((a + 0x1_0000_0000 - b) % 0x1_0000_0000) as u32
}

/// The absolute address a PREL31 word decodes to when it sits at address
/// `at`: sign-extend the low 31 bits from bit 30 and add them to `at`.
/// Subtracting 2^31 modulo 2^32 is the same as adding 2^31, so the negative
/// case is one more wrapping addition.
pub open spec fn spec_prel31_target(word: u32, at: u32) -> u32 {
    if word & 0x4000_0000 != 0 {
        wrap_add32(wrap_add32(at, word & 0x7FFF_FFFF), 0x8000_0000)
    } else {
        wrap_add32(at, word & 0x7FFF_FFFF)
    }
}

/// The PREL31 word that, placed at address `at`, decodes to `target`,
/// provided the distance fits in 31 signed bits.
pub open spec fn spec_prel31_encode(target: u32, at: u32) -> u32 {
    wrap_sub32(target, at) & 0x7FFF_FFFF
}

/// Decode a PREL31 word found at address `at`.  The caller checks the
/// reserved high bit; the decode itself ignores it.
pub fn prel31_target(word: u32, at: u32) -> (r: u32)
    ensures
        r == spec_prel31_target(word, at),
{
    let low = word & 0x7FFF_FFFF;
    if word & 0x4000_0000 != 0 {
        at.wrapping_add(low).wrapping_add(0x8000_0000)
    } else {
        at.wrapping_add(low)
    }
}

/// Encode the PREL31 word for `target` as seen from address `at`.
pub fn prel31_encode(target: u32, at: u32) -> (r: u32)
    ensures
        r == spec_prel31_encode(target, at),
{
    target.wrapping_sub(at) & 0x7FFF_FFFF
}

/// PREL31 decoding is the inverse of encoding: whenever `target` lies
/// within +/- 2^30 of the word's own address `at`, the encoded word has a
/// clear reserved bit and decodes back to `target`.
pub proof fn lemma_prel31_round_trip(target: u32, at: u32)
    requires
        wrap_sub32(target, at) < 0x4000_0000 || wrap_sub32(target, at) >= 0xC000_0000,
    ensures
        spec_prel31_encode(target, at) >> 31u32 == 0u32,
        spec_prel31_target(spec_prel31_encode(target, at), at) == target,
{
    assert(spec_prel31_encode(target, at) >> 31u32 == 0u32
        && spec_prel31_target(spec_prel31_encode(target, at), at) == target) by (bit_vector)
        requires
            wrap_sub32(target, at) < 0x4000_0000 || wrap_sub32(target, at) >= 0xC000_0000,
    ;
}

/// And in the other direction: any word with a clear reserved bit is
/// reproduced by encoding its own decode.
pub proof fn lemma_prel31_encode_of_target(word: u32, at: u32)
    requires
        word >> 31u32 == 0u32,
    ensures
        spec_prel31_encode(spec_prel31_target(word, at), at) == word,
{
    assert(spec_prel31_encode(spec_prel31_target(word, at), at) == word) by (bit_vector)
        requires
            word >> 31u32 == 0u32,
    ;
}

} // verus!
