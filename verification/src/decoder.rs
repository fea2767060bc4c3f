//! The EHABI instruction decoder: from Word 1 of an exidx entry (and, when
//! that word points into `.ARM.extab`, from the extab bytes) to the ordered
//! recipe of unwind operations.
//!
//! The compact unwind bytecode packs instruction bytes big-endian within
//! each 32-bit word; the bytes are interpreted left to right.  A recipe
//! always ends in exactly one `Finish` or `Refuse`: an explicit finish byte
//! or refusal stops decoding, and a stream that runs out without one gets
//! an implicit `Finish` appended.

use vstd::prelude::*;
use crate::prel31::spec_prel31_target;
use crate::prel31::prel31_target;
use crate::types::{Error, UnwindOperation};
use crate::words::{spec_word_at, read_word_at};

verus! {

/// A ULEB128 value starting at offset `i`: the decoded value and the offset
/// just past it, or nothing when the stream ends inside the encoding.
#[verifier::opaque]
pub open spec fn spec_uleb(s: Seq<u8>, i: int) -> Option<(nat, int)>
    decreases s.len() - i,
{
    if i < 0 || i >= s.len() {
        None
    } else if s[i] < 0x80 {
        Some((s[i] as nat, i + 1))
    } else {
        match spec_uleb(s, i + 1) {
            Some(p) => Some((((s[i] - 0x80) + 128 * p.0) as nat, p.1)),
            None => None,
        }
    }
}

/// The recipe decoded from byte offset `i` to the end of the stream.
#[verifier::opaque]
pub open spec fn spec_decode_from(s: Seq<u8>, i: int) -> Result<Seq<UnwindOperation>, Error>
    decreases s.len() - i,
{
    if i < 0 || i >= s.len() {
        // running off the last byte without a finish appends an implicit one
        Ok(seq![UnwindOperation::Finish])
    } else {
        let b = s[i];
        if b < 0x40 {
            cons_op(UnwindOperation::AddToVsp((4 * (b as i32) + 4) as i32), spec_decode_from(s, i + 1))
        } else if b < 0x80 {
            cons_op(
                UnwindOperation::AddToVsp((-(4 * ((b - 0x40) as i32)) - 4) as i32),
                spec_decode_from(s, i + 1),
            )
        } else if b < 0x90 {
            if i + 1 >= s.len() {
                Err(Error::MalformedEntry)
            } else {
                let mask12 = (((b - 0x80) as u16) << 8u16) | (s[i + 1] as u16);
                if mask12 == 0 {
                    Ok(seq![UnwindOperation::Refuse])
                } else {
                    cons_op(
                        UnwindOperation::PopRegsUnderMask(mask12 << 4u16),
                        spec_decode_from(s, i + 2),
                    )
                }
            }
        } else if b < 0xA0 {
            if b == 0x9D || b == 0x9F {
                Err(Error::UnsupportedInstruction)
            } else {
                cons_op(
                    UnwindOperation::VspFromReg((b - 0x90) as u8),
                    spec_decode_from(s, i + 1),
                )
            }
        } else if b < 0xA8 {
            cons_op(
                UnwindOperation::PopRegsUnderMask(low_range_mask((b - 0xA0) as u16)),
                spec_decode_from(s, i + 1),
            )
        } else if b < 0xB0 {
            cons_op(
                UnwindOperation::PopRegsUnderMask(low_range_mask((b - 0xA8) as u16) | 0x4000u16),
                spec_decode_from(s, i + 1),
            )
        } else if b == 0xB0 {
            Ok(seq![UnwindOperation::Finish])
        } else if b == 0xB1 {
            if i + 1 >= s.len() {
                Err(Error::MalformedEntry)
            } else {
                let x = s[i + 1];
                if x == 0 || x > 0xF {
                    Err(Error::UnsupportedInstruction)
                } else {
                    cons_op(
                        UnwindOperation::PopRegsUnderMask(x as u16),
                        spec_decode_from(s, i + 2),
                    )
                }
            }
        } else if b == 0xB2 {
            match spec_uleb(s, i + 1) {
                None => Err(Error::MalformedEntry),
                Some(p) => {
                    if p.1 <= i + 1 || p.1 > s.len() || p.0 > 0x0FFF_FFFF {
                        Err(Error::MalformedEntry)
                    } else {
                        cons_op(
                            UnwindOperation::AddToVsp((0x204 + 4 * p.0) as i32),
                            spec_decode_from(s, p.1),
                        )
                    }
                },
            }
        } else if b == 0xB3 {
            if i + 1 >= s.len() {
                Err(Error::MalformedEntry)
            } else {
                let x = s[i + 1];
                cons_op(
                    UnwindOperation::PopFloatRegs((8 + (x >> 4u8)) as u8, ((x & 0xF) + 1) as u8),
                    spec_decode_from(s, i + 2),
                )
            }
        } else if b < 0xB8 {
            Err(Error::UnsupportedInstruction)
        } else if b < 0xC0 {
            cons_op(
                UnwindOperation::PopFloatRegs(8, ((b - 0xB8) + 1) as u8),
                spec_decode_from(s, i + 1),
            )
        } else if b < 0xC6 {
            cons_op(
                UnwindOperation::PopFloatRegs(10, ((b - 0xC0) + 1) as u8),
                spec_decode_from(s, i + 1),
            )
        } else if b == 0xC6 {
            if i + 1 >= s.len() {
                Err(Error::MalformedEntry)
            } else {
                let x = s[i + 1];
                cons_op(
                    UnwindOperation::PopFloatRegs((x >> 4u8) as u8, ((x & 0xF) + 1) as u8),
                    spec_decode_from(s, i + 2),
                )
            }
        } else if b == 0xC7 {
            Err(Error::UnsupportedInstruction)
        } else if b == 0xC8 {
            if i + 1 >= s.len() {
                Err(Error::MalformedEntry)
            } else {
                let x = s[i + 1];
                cons_op(
                    UnwindOperation::PopFloatRegs((16 + (x >> 4u8)) as u8, ((x & 0xF) + 1) as u8),
                    spec_decode_from(s, i + 2),
                )
            }
        } else if b == 0xC9 {
            if i + 1 >= s.len() {
                Err(Error::MalformedEntry)
            } else {
                let x = s[i + 1];
                cons_op(
                    UnwindOperation::PopFloatRegs((x >> 4u8) as u8, ((x & 0xF) + 1) as u8),
                    spec_decode_from(s, i + 2),
                )
            }
        } else {
            Err(Error::UnsupportedInstruction)
        }
    }
}

/// Prepend one operation to a decode tail.
pub open spec fn cons_op(
    op: UnwindOperation,
    rest: Result<Seq<UnwindOperation>, Error>,
) -> Result<Seq<UnwindOperation>, Error> {
    match rest {
        Ok(t) => Ok(seq![op] + t),
        Err(e) => Err(e),
    }
}

/// The mask naming R4 up to R4+n.
pub open spec fn low_range_mask(n: u16) -> u16
    recommends
        n < 8,
{
    ((((1u16 << ((n + 1) as u16)) - 1) as u16) << 4u16) as u16
}

/// Byte `k` (0 is most significant) of a word in the packed big-endian
/// instruction order.
pub open spec fn be_byte(w: u32, k: int) -> u8 {
    ((w >> ((24 - 8 * k) as u32)) & 0xFF) as u8
}

/// The instruction bytes contributed by `count` extab words starting at
/// byte offset `start`, each word most-significant byte first.
pub open spec fn words_bytes(extab: Seq<u8>, start: int, count: int) -> Seq<u8> {
    Seq::new((4 * count) as nat, |k: int| be_byte(spec_word_at(extab, start + 4 * (k / 4)), k % 4))
}

/// The instruction byte stream an exidx Word 1 selects: inline bytes for
/// the compact form, header plus following words for an extab reference.
/// The `cantunwind` sentinel is handled before this point.
#[verifier::opaque]
pub open spec fn spec_entry_stream(
    word1: u32,
    word1_addr: u32,
    extab: Seq<u8>,
    extab_base: u32,
) -> Result<Seq<u8>, Error> {
    if word1 >> 31u32 != 0u32 {
        // inline compact form: personality must be 0, three bytes follow
        if (word1 >> 24u32) & 0xF != 0 {
            Err(Error::UnsupportedInstruction)
        } else {
            Ok(seq![be_byte(word1, 1), be_byte(word1, 2), be_byte(word1, 3)])
        }
    } else {
        let target = spec_prel31_target(word1, word1_addr);
        if target < extab_base || target - extab_base + 4 > extab.len() {
            Err(Error::MalformedEntry)
        } else {
            let off = target - extab_base;
            let h = spec_word_at(extab, off);
            if h >> 31u32 == 0u32 {
                // a generic-model entry, not the compact bytecode
                Err(Error::UnsupportedInstruction)
            } else {
                let pers = (h >> 24u32) & 0xF;
                if pers == 0 {
                    Ok(seq![be_byte(h, 1), be_byte(h, 2), be_byte(h, 3)])
                } else if pers == 1 || pers == 2 {
                    let more = (h >> 16u32) & 0xFF;
                    if off + 4 + 4 * more > extab.len() {
                        Err(Error::MalformedEntry)
                    } else {
                        Ok(
                            seq![be_byte(h, 2), be_byte(h, 3)] + words_bytes(
                                extab,
                                off + 4,
                                more as int,
                            ),
                        )
                    }
                } else {
                    Err(Error::UnsupportedInstruction)
                }
            }
        }
    }
}

/// The recipe an exidx entry decodes to.
pub open spec fn spec_decode_entry(
    word1: u32,
    word1_addr: u32,
    extab: Seq<u8>,
    extab_base: u32,
) -> Result<Seq<UnwindOperation>, Error> {
    if word1 == 1 {
        // the cantunwind sentinel
        Ok(seq![UnwindOperation::Refuse])
    } else {
        match spec_entry_stream(word1, word1_addr, extab, extab_base) {
            Ok(s) => spec_decode_from(s, 0),
            Err(e) => Err(e),
        }
    }
}

/// A one-operation recipe.
fn single_op(op: UnwindOperation) -> (r: Vec<UnwindOperation>)
    ensures
        r@ =~= seq![op],
{
    let mut r: Vec<UnwindOperation> = Vec::new();
    r.push(op);
    r
}

/// Push one operation onto the front of a recipe.
fn prepend_op(op: UnwindOperation, rest: Vec<UnwindOperation>) -> (r: Vec<UnwindOperation>)
    ensures
        r@ == seq![op] + rest@,
{
    let ghost tail = rest@;
    let mut rest = rest;
    rest.insert(0, op);
    proof {
        assert(rest@ =~= seq![op] + tail);
    }
    rest
}

/// Decode the byte stream from offset `i` onward.
fn decode_from(s: &[u8], i: usize) -> (r: Result<Vec<UnwindOperation>, Error>)
    requires
        s@.len() < 0x1000_0000,
    ensures
        r matches Ok(v) ==> spec_decode_from(s@, i as int) == Ok::<_, Error>(v@),
        r matches Err(e) ==> spec_decode_from(s@, i as int) == Err::<Seq<UnwindOperation>, _>(e),
    decreases s@.len() - i,
{
    proof {
        reveal(spec_decode_from);
    }
    if i >= s.len() {
        return Ok(single_op(UnwindOperation::Finish));
    }
    let b = s[i];
    if b < 0x40 {
        let rest = decode_from(s, i + 1)?;
        Ok(prepend_op(UnwindOperation::AddToVsp(4 * (b as i32) + 4), rest))
    } else if b < 0x80 {
        let rest = decode_from(s, i + 1)?;
        Ok(prepend_op(UnwindOperation::AddToVsp(-(4 * ((b - 0x40) as i32)) - 4), rest))
    } else if b < 0x90 {
        if i + 1 >= s.len() {
            return Err(Error::MalformedEntry);
        }
        let mask12 = (((b - 0x80) as u16) << 8u16) | (s[i + 1] as u16);
        if mask12 == 0 {
            Ok(single_op(UnwindOperation::Refuse))
        } else {
            let rest = decode_from(s, i + 2)?;
            Ok(prepend_op(UnwindOperation::PopRegsUnderMask(mask12 << 4u16), rest))
        }
    } else if b < 0xA0 {
        if b == 0x9D || b == 0x9F {
            return Err(Error::UnsupportedInstruction);
        }
        let rest = decode_from(s, i + 1)?;
        Ok(prepend_op(UnwindOperation::VspFromReg(b - 0x90), rest))
    } else if b < 0xA8 {
        let rest = decode_from(s, i + 1)?;
        Ok(prepend_op(UnwindOperation::PopRegsUnderMask(exec_low_range_mask((b - 0xA0) as u16)), rest))
    } else if b < 0xB0 {
        let rest = decode_from(s, i + 1)?;
        Ok(prepend_op(
            UnwindOperation::PopRegsUnderMask(exec_low_range_mask((b - 0xA8) as u16) | 0x4000u16),
            rest,
        ))
    } else if b == 0xB0 {
        Ok(single_op(UnwindOperation::Finish))
    } else if b == 0xB1 {
        if i + 1 >= s.len() {
            return Err(Error::MalformedEntry);
        }
        let x = s[i + 1];
        if x == 0 || x > 0xF {
            return Err(Error::UnsupportedInstruction);
        }
        let rest = decode_from(s, i + 2)?;
        Ok(prepend_op(UnwindOperation::PopRegsUnderMask(x as u16), rest))
    } else if b == 0xB2 {
        let (value, next) = match read_uleb(s, i + 1) {
            Some(p) => p,
            None => {
                return Err(Error::MalformedEntry);
            },
        };
        if value > 0x0FFF_FFFF {
            return Err(Error::MalformedEntry);
        }
        let rest = decode_from(s, next)?;
        Ok(prepend_op(UnwindOperation::AddToVsp((0x204 + 4 * value) as i32), rest))
    } else if b == 0xB3 {
        if i + 1 >= s.len() {
            return Err(Error::MalformedEntry);
        }
        let x = s[i + 1];
        proof {
            assert(x >> 4u8 <= 15 && (x & 0xF) <= 15) by (bit_vector);
        }
        let rest = decode_from(s, i + 2)?;
        Ok(prepend_op(UnwindOperation::PopFloatRegs(8 + (x >> 4u8), (x & 0xF) + 1), rest))
    } else if b < 0xB8 {
        Err(Error::UnsupportedInstruction)
    } else if b < 0xC0 {
        let rest = decode_from(s, i + 1)?;
        Ok(prepend_op(UnwindOperation::PopFloatRegs(8, (b - 0xB8) + 1), rest))
    } else if b < 0xC6 {
        let rest = decode_from(s, i + 1)?;
        Ok(prepend_op(UnwindOperation::PopFloatRegs(10, (b - 0xC0) + 1), rest))
    } else if b == 0xC6 {
        if i + 1 >= s.len() {
            return Err(Error::MalformedEntry);
        }
        let x = s[i + 1];
        proof {
            assert(x >> 4u8 <= 15 && (x & 0xF) <= 15) by (bit_vector);
        }
        let rest = decode_from(s, i + 2)?;
        Ok(prepend_op(UnwindOperation::PopFloatRegs(x >> 4u8, (x & 0xF) + 1), rest))
    } else if b == 0xC7 {
        Err(Error::UnsupportedInstruction)
    } else if b == 0xC8 {
        if i + 1 >= s.len() {
            return Err(Error::MalformedEntry);
        }
        let x = s[i + 1];
        proof {
            assert(x >> 4u8 <= 15 && (x & 0xF) <= 15) by (bit_vector);
        }
        let rest = decode_from(s, i + 2)?;
        Ok(prepend_op(UnwindOperation::PopFloatRegs(16 + (x >> 4u8), (x & 0xF) + 1), rest))
    } else if b == 0xC9 {
        if i + 1 >= s.len() {
            return Err(Error::MalformedEntry);
        }
        let x = s[i + 1];
        proof {
            assert(x >> 4u8 <= 15 && (x & 0xF) <= 15) by (bit_vector);
        }
        let rest = decode_from(s, i + 2)?;
        Ok(prepend_op(UnwindOperation::PopFloatRegs(x >> 4u8, (x & 0xF) + 1), rest))
    } else {
        Err(Error::UnsupportedInstruction)
    }
}

/// The mask naming R4 up to R4+n.
fn exec_low_range_mask(n: u16) -> (r: u16)
    requires
        n < 8,
    ensures
        r == low_range_mask(n),
{
    let p = 1u16 << (n + 1);
    proof {
        assert(1u16 << ((n + 1) as u16) >= 1u16) by (bit_vector)
            requires n < 8,
        ;
    }
    (p - 1) << 4u16
}

/// Decode a bounded ULEB128 value; values that cannot arise from a sane
/// table (here, beyond 32 bits) are rejected as running past the stream.
fn read_uleb(s: &[u8], i: usize) -> (r: Option<(u32, usize)>)
    requires
        s@.len() < 0x1000_0000,
        i <= s@.len(),
    ensures
        match r {
            Some(p) => {
                &&& spec_uleb(s@, i as int) == Some(((p.0 as nat), p.1 as int))
                &&& i < p.1 <= s@.len()
            },
            None => spec_uleb(s@, i as int) matches Some(q) ==> q.0 > 0xFFFF_FFFF,
        },
    decreases s@.len() - i,
{
    proof {
        reveal(spec_uleb);
    }
    if i >= s.len() {
        return None;
    }
    let b = s[i];
    if b < 0x80 {
        return Some((b as u32, i + 1));
    }
    match read_uleb(s, i + 1) {
        None => None,
        Some((v, next)) => {
            if v > 0x01FF_FFFF {
                return None;
            }
            Some((((b - 0x80) as u32) + 128 * v, next))
        },
    }
}

/// Decode an exidx entry's Word 1 (found at `word1_addr`) into its recipe,
/// reading extab bytes when the word refers to them.
pub fn decode_entry(word1: u32, word1_addr: u32, extab: &[u8], extab_base: u32) -> (r: Result<
    Vec<UnwindOperation>,
    Error,
>)
    requires
        extab@.len() < 0x1000_0000,
    ensures
        r matches Ok(v) ==> spec_decode_entry(word1, word1_addr, extab@, extab_base)
            == Ok::<_, Error>(v@),
        r matches Err(e) ==> spec_decode_entry(word1, word1_addr, extab@, extab_base)
            == Err::<Seq<UnwindOperation>, _>(e),
{
    if word1 == 1 {
        return Ok(single_op(UnwindOperation::Refuse));
    }
    let stream = entry_stream(word1, word1_addr, extab, extab_base)?;
    decode_from(stream.as_slice(), 0)
}

/// Assemble the instruction byte stream Word 1 selects.
fn entry_stream(word1: u32, word1_addr: u32, extab: &[u8], extab_base: u32) -> (r: Result<
    Vec<u8>,
    Error,
>)
    requires
        extab@.len() < 0x1000_0000,
    ensures
        r matches Ok(v) ==> {
            &&& spec_entry_stream(word1, word1_addr, extab@, extab_base) == Ok::<_, Error>(v@)
            &&& v@.len() < 0x1000_0000
        },
        r matches Err(e) ==> spec_entry_stream(word1, word1_addr, extab@, extab_base)
            == Err::<Seq<u8>, _>(e),
{
    proof {
        reveal(spec_entry_stream);
    }
    if word1 >> 31u32 != 0u32 {
        if (word1 >> 24u32) & 0xF != 0 {
            return Err(Error::UnsupportedInstruction);
        }
        let mut stream: Vec<u8> = Vec::new();
        stream.push(((word1 >> 16u32) & 0xFF) as u8);
        stream.push(((word1 >> 8u32) & 0xFF) as u8);
        stream.push((word1 & 0xFF) as u8);
        proof {
            lemma_be_bytes(word1);
            assert(stream@ =~= seq![be_byte(word1, 1), be_byte(word1, 2), be_byte(word1, 3)]);
        }
        return Ok(stream);
    }
    let target = prel31_target(word1, word1_addr);
    if target < extab_base {
        return Err(Error::MalformedEntry);
    }
    let off_u32 = target - extab_base;
    if extab.len() < 4 || off_u32 as usize > extab.len() - 4 {
        return Err(Error::MalformedEntry);
    }
    let off = off_u32 as usize;
    let h = read_word_at(extab, off);
    if h >> 31u32 == 0u32 {
        return Err(Error::UnsupportedInstruction);
    }
    let pers = (h >> 24u32) & 0xF;
    if pers == 0 {
        let mut stream: Vec<u8> = Vec::new();
        stream.push(((h >> 16u32) & 0xFF) as u8);
        stream.push(((h >> 8u32) & 0xFF) as u8);
        stream.push((h & 0xFF) as u8);
        proof {
            lemma_be_bytes(h);
            assert(stream@ =~= seq![be_byte(h, 1), be_byte(h, 2), be_byte(h, 3)]);
        }
        Ok(stream)
    } else if pers == 1 || pers == 2 {
        proof {
            assert((h >> 16u32) & 0xFF <= 0xFF) by (bit_vector);
        }
        let more = ((h >> 16u32) & 0xFF) as usize;
        if extab.len() - off - 4 < 4 * more {
            return Err(Error::MalformedEntry);
        }
        let mut stream: Vec<u8> = Vec::new();
        stream.push(((h >> 8u32) & 0xFF) as u8);
        stream.push((h & 0xFF) as u8);
        proof {
            lemma_be_bytes(h);
            assert(stream@ =~= seq![be_byte(h, 2), be_byte(h, 3)]);
        }
        let mut w: usize = 0;
        while w < more
            invariant
                extab@.len() < 0x1000_0000,
                0 <= w <= more,
                more <= 0xFF,
                off + 4 + 4 * more <= extab@.len(),
                stream@ =~= seq![be_byte(h, 2), be_byte(h, 3)] + words_bytes(
                    extab@,
                    off + 4,
                    w as int,
                ),
            decreases more - w,
        {
            let word = read_word_at(extab, off + 4 + 4 * w);
            stream.push(((word >> 24u32) & 0xFF) as u8);
            stream.push(((word >> 16u32) & 0xFF) as u8);
            stream.push(((word >> 8u32) & 0xFF) as u8);
            stream.push((word & 0xFF) as u8);
            proof {
                lemma_be_bytes(word);
                let lhs = words_bytes(extab@, off + 4, w as int + 1);
                let rhs = words_bytes(extab@, off + 4, w as int) + seq![
                    be_byte(word, 0),
                    be_byte(word, 1),
                    be_byte(word, 2),
                    be_byte(word, 3),
                ];
                assert forall|k: int| 0 <= k < lhs.len() implies lhs[k] == rhs[k] by {
                    assert(k / 4 <= w as int);
                    if k / 4 == w as int {
                        assert(k % 4 == k - 4 * (w as int));
                    }
                }
                assert(lhs =~= rhs);
            }
            w = w + 1;
        }
        Ok(stream)
    } else {
        Err(Error::UnsupportedInstruction)
    }
}

/// The truncated shifts used when packing a word's bytes agree with
/// `be_byte`.
proof fn lemma_be_bytes(w: u32)
    ensures
        ((w >> 16u32) & 0xFF) as u8 == be_byte(w, 1),
        ((w >> 8u32) & 0xFF) as u8 == be_byte(w, 2),
        (w & 0xFF) as u8 == be_byte(w, 3),
        ((w >> 24u32) & 0xFF) as u8 == be_byte(w, 0),
{
    assert(((w >> 16u32) & 0xFF) as u8 == ((w >> ((24 - 8 * 1) as u32)) & 0xFF) as u8) by (bit_vector);
    assert(((w >> 8u32) & 0xFF) as u8 == ((w >> ((24 - 8 * 2) as u32)) & 0xFF) as u8) by (bit_vector);
    assert((w & 0xFF) as u8 == ((w >> ((24 - 8 * 3) as u32)) & 0xFF) as u8) by (bit_vector);
    assert(((w >> 24u32) & 0xFF) as u8 == ((w >> ((24 - 8 * 0) as u32)) & 0xFF) as u8) by (bit_vector);
}

/// A well-terminated recipe: at least one operation, the last one is
/// `Finish` or `Refuse`, and no earlier one is either.
pub open spec fn ends_in_one_terminator(r: Seq<UnwindOperation>) -> bool {
    &&& r.len() >= 1
    &&& (r.last() == UnwindOperation::Finish || r.last() == UnwindOperation::Refuse)
    &&& forall|k: int|
        0 <= k < r.len() - 1 ==> r[k] != UnwindOperation::Finish && r[k]
            != UnwindOperation::Refuse
}

/// Every recipe the byte decoder emits ends in exactly one `Finish` or
/// `Refuse`.
pub proof fn lemma_decode_from_terminates(s: Seq<u8>, i: int)
    ensures
        spec_decode_from(s, i) matches Ok(r) ==> ends_in_one_terminator(r),
    decreases s.len() - i,
{
    reveal(spec_decode_from);
    if 0 <= i < s.len() {
        let b = s[i];
        lemma_decode_from_terminates(s, i + 1);
        if i + 2 <= s.len() {
            lemma_decode_from_terminates(s, i + 2);
        }
        if b == 0xB2 {
            match spec_uleb(s, i + 1) {
                Some(p) => {
                    if i + 1 < p.1 <= s.len() {
                        lemma_decode_from_terminates(s, p.1);
                    }
                },
                None => {},
            }
        }
        match spec_decode_from(s, i) {
            Ok(r) => {
                assert(r.len() >= 1);
            },
            Err(_) => {},
        }
    }
}

/// For every exidx entry the decoder accepts, the emitted recipe ends in
/// exactly one `Finish` or `Refuse`.
pub proof fn lemma_entry_recipe_terminates(
    word1: u32,
    word1_addr: u32,
    extab: Seq<u8>,
    extab_base: u32,
)
    ensures
        spec_decode_entry(word1, word1_addr, extab, extab_base) matches Ok(r)
            ==> ends_in_one_terminator(r),
{
    if word1 != 1 {
        match spec_entry_stream(word1, word1_addr, extab, extab_base) {
            Ok(stream) => lemma_decode_from_terminates(stream, 0),
            Err(_) => {},
        }
    }
}

} // verus!
