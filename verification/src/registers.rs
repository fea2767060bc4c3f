//! The register file: sixteen 32-bit slots indexed by DWARF register number,
//! plus a validity bitmap.  A register may be read only while its validity
//! bit is set; writing a register sets the bit.

use vstd::prelude::*;

verus! {

/// Ghost model of a register file: the sixteen values and which of them are
/// known.
pub struct RegsSnapshot {
    pub vals: Seq<u32>,
    pub valid: Seq<bool>,
}

impl RegsSnapshot {
    pub open spec fn wf(self) -> bool {
        self.vals.len() == 16 && self.valid.len() == 16
    }

    /// A read of register `i` is defined only when its validity bit is set.
    pub open spec fn get(self, i: int) -> Option<u32> {
        if 0 <= i < 16 && self.valid[i] {
            Some(self.vals[i])
        } else {
            None
        }
    }

    /// Writing a register records the value and marks it known.
    pub open spec fn set(self, i: int, v: u32) -> RegsSnapshot {
        RegsSnapshot { vals: self.vals.update(i, v), valid: self.valid.update(i, true) }
    }
}

/// The ARM register file handed to the unwinder: R0-R15 and the validity
/// bitmap (bit `i` of `mask` governs `Ri`).
#[derive(Clone)]
pub struct Regs {
    r0: u32,
    r1: u32,
    r2: u32,
    r3: u32,
    r4: u32,
    r5: u32,
    r6: u32,
    r7: u32,
    r8: u32,
    r9: u32,
    r10: u32,
    r11: u32,
    r12: u32,
    r13: u32,
    r14: u32,
    r15: u32,
    mask: u16,
}

impl Regs {
    spec fn field(&self, i: int) -> u32 {
        if i == 0 { self.r0 }
        else if i == 1 { self.r1 }
        else if i == 2 { self.r2 }
        else if i == 3 { self.r3 }
        else if i == 4 { self.r4 }
        else if i == 5 { self.r5 }
        else if i == 6 { self.r6 }
        else if i == 7 { self.r7 }
        else if i == 8 { self.r8 }
        else if i == 9 { self.r9 }
        else if i == 10 { self.r10 }
        else if i == 11 { self.r11 }
        else if i == 12 { self.r12 }
        else if i == 13 { self.r13 }
        else if i == 14 { self.r14 }
        else { self.r15 }
    }
}

impl View for Regs {
    type V = RegsSnapshot;

    closed spec fn view(&self) -> RegsSnapshot {
        RegsSnapshot {
            vals: Seq::new(16, |i: int| self.field(i)),
            valid: Seq::new(16, |i: int| (self.mask >> (i as u16)) & 1u16 != 0),
        }
    }
}

impl Regs {
    /// A register file with every slot unknown.
    pub fn new() -> (r: Regs)
        ensures
            r@.wf(),
            forall|i: int| 0 <= i < 16 ==> !r@.valid[i],
    {
        let r = Regs {
            r0: 0, r1: 0, r2: 0, r3: 0, r4: 0, r5: 0, r6: 0, r7: 0,
            r8: 0, r9: 0, r10: 0, r11: 0, r12: 0, r13: 0, r14: 0, r15: 0,
            mask: 0,
        };
        proof {
            assert forall|i: int| 0 <= i < 16 implies !r@.valid[i] by {
                let j = i as u16;
                assert((0u16 >> j) & 1u16 == 0u16) by (bit_vector);
            }
        }
        r
    }

    /// Typed read by DWARF register number; nothing when the value is
    /// unknown or the number is out of range.
    pub fn get(&self, reg: u16) -> (r: Option<u32>)
        ensures
            r == self@.get(reg as int),
    {
        if reg >= 16 {
            return None;
        }
        let known = (self.mask >> reg) & 1u16 != 0;
        proof {
            assert((reg as int) as u16 == reg);
        }
        if !known {
            return None;
        }
        let v = match reg {
            0 => self.r0,
            1 => self.r1,
            2 => self.r2,
            3 => self.r3,
            4 => self.r4,
            5 => self.r5,
            6 => self.r6,
            7 => self.r7,
            8 => self.r8,
            9 => self.r9,
            10 => self.r10,
            11 => self.r11,
            12 => self.r12,
            13 => self.r13,
            14 => self.r14,
            _ => self.r15,
        };
        Some(v)
    }

    /// Typed write by DWARF register number; sets the validity bit.
    pub fn set(&mut self, reg: u16, value: u32)
        requires
            reg < 16,
        ensures
            final(self)@ == old(self)@.set(reg as int, value),
    {
        match reg {
            0 => self.r0 = value,
            1 => self.r1 = value,
            2 => self.r2 = value,
            3 => self.r3 = value,
            4 => self.r4 = value,
            5 => self.r5 = value,
            6 => self.r6 = value,
            7 => self.r7 = value,
            8 => self.r8 = value,
            9 => self.r9 = value,
            10 => self.r10 = value,
            11 => self.r11 = value,
            12 => self.r12 = value,
            13 => self.r13 = value,
            14 => self.r14 = value,
            _ => self.r15 = value,
        }
        let ghost m0 = self.mask;
        self.mask = self.mask | (1u16 << reg);
        proof {
            assert forall|i: int| 0 <= i < 16 implies
                self@.valid[i] == old(self)@.set(reg as int, value).valid[i] by {
                let j = i as u16;
                assert(((m0 | (1u16 << reg)) >> j) & 1u16
                    == (if j == reg { 1u16 } else { (m0 >> j) & 1u16 })) by (bit_vector)
                    requires j < 16, reg < 16;
                assert((m0 >> j) & 1u16 == ((m0 >> j) & 1u16) & 1u16) by (bit_vector);
            }
            assert(self@.vals =~= old(self)@.set(reg as int, value).vals);
            assert(self@.valid =~= old(self)@.set(reg as int, value).valid);
        }
    }
}

} // verus!
