//! The unwind executor: applying a decoded recipe to the register file,
//! reading the caller's saved registers from target memory.

use vstd::prelude::*;
use crate::memory::MemoryReader;
use crate::prel31::wrap_add32;
use crate::registers::{Regs, RegsSnapshot};
use crate::types::{Error, UnwindOperation};

verus! {

/// The executor's working state: the registers, the address the return
/// address was read from (if any yet), and whether the recipe popped R15
/// itself.
pub struct ExecState {
    pub regs: RegsSnapshot,
    pub ra: Option<u32>,
    pub popped_pc: bool,
}

/// A finished execution: the new register file and the address the return
/// address was loaded from, when it came from memory.
pub struct ExecOutcome {
    pub regs: RegsSnapshot,
    pub ra: Option<u32>,
}

/// R13 advanced by `n` bytes, modulo the address space.
pub open spec fn vsp_plus(sp: u32, n: u32) -> u32 {
    wrap_add32(sp, n)
}

/// Pop the registers named by `mask` from bit `bit` upward, in ascending
/// register-number order: read the word at R13, write it to the register,
/// advance R13 by four.  Reading through an unknown R13 or an unmapped
/// address truncates the walk.
#[verifier::opaque]
pub open spec fn pop_mask_step(mask: u16, bit: int, st: ExecState, mem: Map<u32, u32>) -> Result<
    ExecState,
    Error,
>
    decreases 16 - bit,
{
    if bit < 0 || bit >= 16 {
        Ok(st)
    } else if (mask >> (bit as u16)) & 1u16 == 0 {
        pop_mask_step(mask, bit + 1, st, mem)
    } else {
        match st.regs.get(13) {
            None => Err(Error::TruncatedStack),
            Some(a) => if !mem.dom().contains(a) {
                Err(Error::TruncatedStack)
            } else {
                let r1 = st.regs.set(bit, mem[a]);
                match r1.get(13) {
                    None => Err(Error::TruncatedStack),
                    Some(s2) => pop_mask_step(
                        mask,
                        bit + 1,
                        ExecState {
                            regs: r1.set(13, vsp_plus(s2, 4)),
                            ra: if bit == 14 || bit == 15 {
                                Some(a)
                            } else {
                                st.ra
                            },
                            popped_pc: st.popped_pc || bit == 15,
                        },
                        mem,
                    ),
                }
            },
        }
    }
}

/// One non-terminal operation applied to the working state.
pub open spec fn spec_step(op: UnwindOperation, st: ExecState, mem: Map<u32, u32>) -> Result<
    ExecState,
    Error,
> {
    match op {
        UnwindOperation::PopRegsUnderMask(mask) => pop_mask_step(mask, 0, st, mem),
        UnwindOperation::SetVsp(v) => Ok(ExecState { regs: st.regs.set(13, v), ra: st.ra, popped_pc: st.popped_pc }),
        UnwindOperation::AddToVsp(d) => match st.regs.get(13) {
            None => Err(Error::TruncatedStack),
            Some(sp) => Ok(
                ExecState {
                    regs: st.regs.set(13, vstd::wrapping::u32_specs::wrapping_add_signed(sp, d)),
                    ra: st.ra,
                    popped_pc: st.popped_pc,
                },
            ),
        },
        UnwindOperation::VspFromReg(r) => match st.regs.get(r as int) {
            None => Err(Error::TruncatedStack),
            Some(v) => Ok(ExecState { regs: st.regs.set(13, v), ra: st.ra, popped_pc: st.popped_pc }),
        },
        UnwindOperation::PopFloatRegs(_first, count) => match st.regs.get(13) {
            None => Err(Error::TruncatedStack),
            Some(sp) => Ok(
                ExecState {
                    regs: st.regs.set(13, vsp_plus(sp, (8 * (count as u32)) as u32)),
                    ra: st.ra,
                    popped_pc: st.popped_pc,
                },
            ),
        },
        _ => Ok(st),
    }
}

/// The rule applied once the recipe ends: if it did not pop R15 itself, the
/// current R14 becomes the new R15; a null new R15 means the stack's end.
pub open spec fn spec_finalize(st: ExecState) -> Result<ExecOutcome, Error> {
    if st.popped_pc {
        match st.regs.get(15) {
            None => Err(Error::TruncatedStack),
            Some(pc) => if pc == 0 {
                Err(Error::EndOfStack)
            } else {
                Ok(ExecOutcome { regs: st.regs, ra: st.ra })
            },
        }
    } else {
        match st.regs.get(14) {
            None => Err(Error::TruncatedStack),
            Some(lr) => if lr == 0 {
                Err(Error::EndOfStack)
            } else {
                Ok(ExecOutcome { regs: st.regs.set(15, lr), ra: st.ra })
            },
        }
    }
}

/// Run the recipe from its `i`-th operation onward.
#[verifier::opaque]
pub open spec fn spec_exec_ops(
    ops: Seq<UnwindOperation>,
    i: int,
    st: ExecState,
    mem: Map<u32, u32>,
) -> Result<ExecOutcome, Error>
    decreases ops.len() - i,
{
    if i < 0 || i >= ops.len() {
        spec_finalize(st)
    } else {
        match ops[i] {
            UnwindOperation::Finish => spec_finalize(st),
            UnwindOperation::Refuse => Err(Error::EndOfStack),
            op => match spec_step(op, st, mem) {
                Err(e) => Err(e),
                Ok(st2) => spec_exec_ops(ops, i + 1, st2, mem),
            },
        }
    }
}

/// What executing a whole recipe does to a register file against a given
/// memory.
pub open spec fn spec_execute(
    ops: Seq<UnwindOperation>,
    regs: RegsSnapshot,
    mem: Map<u32, u32>,
) -> Result<ExecOutcome, Error> {
    spec_exec_ops(ops, 0, ExecState { regs, ra: None, popped_pc: false }, mem)
}

/// Pop registers under `mask` from bit `bit` upward.
fn pop_regs<M: MemoryReader>(
    mask: u16,
    bit: u16,
    memory: &M,
    regs: &mut Regs,
    ra: Option<u32>,
    popped_pc: bool,
) -> (r: Result<(Option<u32>, bool), Error>)
    requires
        bit <= 16,
    ensures
        match r {
            Ok(p) => pop_mask_step(
                mask,
                bit as int,
                ExecState { regs: old(regs)@, ra, popped_pc },
                memory.mem(),
            ) == Ok::<ExecState, Error>(ExecState { regs: final(regs)@, ra: p.0, popped_pc: p.1 }),
            Err(e) => pop_mask_step(
                mask,
                bit as int,
                ExecState { regs: old(regs)@, ra, popped_pc },
                memory.mem(),
            ) == Err::<ExecState, Error>(e),
        },
    decreases 16 - bit,
{
    proof {
        reveal(pop_mask_step);
    }
    if bit >= 16 {
        return Ok((ra, popped_pc));
    }
    if (mask >> bit) & 1u16 == 0 {
        return pop_regs(mask, bit + 1, memory, regs, ra, popped_pc);
    }
    let a = match regs.get(13) {
        Some(a) => a,
        None => {
            return Err(Error::TruncatedStack);
        },
    };
    let v = match memory.read_u32_le(a) {
        Some(v) => v,
        None => {
            return Err(Error::TruncatedStack);
        },
    };
    regs.set(bit, v);
    let s2 = match regs.get(13) {
        Some(s2) => s2,
        None => {
            return Err(Error::TruncatedStack);
        },
    };
    regs.set(13, s2.wrapping_add(4));
    let ra2 = if bit == 14 || bit == 15 {
        Some(a)
    } else {
        ra
    };
    let popped2 = popped_pc || bit == 15;
    pop_regs(mask, bit + 1, memory, regs, ra2, popped2)
}

/// Apply the end-of-recipe rule to the live register file.
fn finalize(regs: &mut Regs, ra: Option<u32>, popped_pc: bool) -> (r: Result<Option<u32>, Error>)
    ensures
        match r {
            Ok(out_ra) => spec_finalize(ExecState { regs: old(regs)@, ra, popped_pc })
                == Ok::<ExecOutcome, Error>(ExecOutcome { regs: final(regs)@, ra: out_ra }),
            Err(e) => spec_finalize(ExecState { regs: old(regs)@, ra, popped_pc })
                == Err::<ExecOutcome, Error>(e),
        },
{
    if popped_pc {
        match regs.get(15) {
            None => Err(Error::TruncatedStack),
            Some(pc) => if pc == 0 {
                Err(Error::EndOfStack)
            } else {
                proof {
                    assert(old(regs)@ == final(regs)@);
                }
                Ok(ra)
            },
        }
    } else {
        match regs.get(14) {
            None => Err(Error::TruncatedStack),
            Some(lr) => if lr == 0 {
                Err(Error::EndOfStack)
            } else {
                regs.set(15, lr);
                Ok(ra)
            },
        }
    }
}

/// Run the recipe from its `i`-th operation onward against the live
/// register file.
fn run_from<M: MemoryReader>(
    ops: &[UnwindOperation],
    i: usize,
    memory: &M,
    regs: &mut Regs,
    ra: Option<u32>,
    popped_pc: bool,
) -> (r: Result<Option<u32>, Error>)
    ensures
        match r {
            Ok(out_ra) => spec_exec_ops(
                ops@,
                i as int,
                ExecState { regs: old(regs)@, ra, popped_pc },
                memory.mem(),
            ) == Ok::<ExecOutcome, Error>(ExecOutcome { regs: final(regs)@, ra: out_ra }),
            Err(e) => spec_exec_ops(
                ops@,
                i as int,
                ExecState { regs: old(regs)@, ra, popped_pc },
                memory.mem(),
            ) == Err::<ExecOutcome, Error>(e),
        },
    decreases ops@.len() - i,
{
    proof {
        reveal(spec_exec_ops);
    }
    if i >= ops.len() {
        return finalize(regs, ra, popped_pc);
    }
    match ops[i] {
        UnwindOperation::Finish => finalize(regs, ra, popped_pc),
        UnwindOperation::Refuse => Err(Error::EndOfStack),
        UnwindOperation::PopRegsUnderMask(mask) => {
            let (ra2, popped2) = match pop_regs(mask, 0, memory, regs, ra, popped_pc) {
                Ok(p) => p,
                Err(e) => {
                    return Err(e);
                },
            };
            run_from(ops, i + 1, memory, regs, ra2, popped2)
        },
        UnwindOperation::SetVsp(v) => {
            regs.set(13, v);
            run_from(ops, i + 1, memory, regs, ra, popped_pc)
        },
        UnwindOperation::AddToVsp(d) => {
            let sp = match regs.get(13) {
                Some(sp) => sp,
                None => {
                    return Err(Error::TruncatedStack);
                },
            };
            regs.set(13, sp.wrapping_add_signed(d));
            run_from(ops, i + 1, memory, regs, ra, popped_pc)
        },
        UnwindOperation::VspFromReg(reg) => {
            let v = match regs.get(reg as u16) {
                Some(v) => v,
                None => {
                    return Err(Error::TruncatedStack);
                },
            };
            regs.set(13, v);
            run_from(ops, i + 1, memory, regs, ra, popped_pc)
        },
        UnwindOperation::PopFloatRegs(_first, count) => {
            let sp = match regs.get(13) {
                Some(sp) => sp,
                None => {
                    return Err(Error::TruncatedStack);
                },
            };
            regs.set(13, sp.wrapping_add(8 * (count as u32)));
            run_from(ops, i + 1, memory, regs, ra, popped_pc)
        },
    }
}

/// Execute a recipe: apply every operation to `regs`, then the final
/// R14-to-R15 rule.  On success the returned address is where the return
/// address was read from, when it came from memory.
pub fn execute<M: MemoryReader>(ops: &[UnwindOperation], memory: &M, regs: &mut Regs) -> (r: Result<
    Option<u32>,
    Error,
>)
    ensures
        match r {
            Ok(out_ra) => spec_execute(ops@, old(regs)@, memory.mem()) == Ok::<ExecOutcome, Error>(
                ExecOutcome { regs: final(regs)@, ra: out_ra },
            ),
            Err(e) => spec_execute(ops@, old(regs)@, memory.mem()) == Err::<ExecOutcome, Error>(e),
        },
{
    run_from(ops, 0, memory, regs, None, false)
}

/// An operation that can only release stack: it never lowers R13.  A
/// `SetVsp`, a `VspFromReg`, a negative `AddToVsp`, or a pop mask naming
/// R13 itself can move the stack pointer anywhere, so they are not
/// releasing.
pub open spec fn releasing_op(op: UnwindOperation) -> bool {
    match op {
        UnwindOperation::PopRegsUnderMask(mask) => (mask >> 13u16) & 1u16 == 0,
        UnwindOperation::AddToVsp(d) => d >= 0,
        UnwindOperation::PopFloatRegs(_first, _count) => true,
        UnwindOperation::Finish => true,
        UnwindOperation::Refuse => true,
        UnwindOperation::SetVsp(_) => false,
        UnwindOperation::VspFromReg(_) => false,
    }
}

/// Every operation from index `i` on is releasing.
pub open spec fn releasing_from(ops: Seq<UnwindOperation>, i: int) -> bool {
    forall|k: int| i <= k < ops.len() ==> releasing_op(ops[k])
}

/// An upper bound on how many bytes one operation advances R13 by.
pub open spec fn op_bound(op: UnwindOperation) -> int {
    match op {
        UnwindOperation::PopRegsUnderMask(_mask) => 64,
        UnwindOperation::AddToVsp(d) => d as int,
        UnwindOperation::PopFloatRegs(_first, count) => 8 * count,
        _ => 0,
    }
}

/// An upper bound on how many bytes the recipe tail from `i` advances R13.
#[verifier::opaque]
pub open spec fn advance_bound(ops: Seq<UnwindOperation>, i: int) -> int
    decreases ops.len() - i,
{
    if i < 0 || i >= ops.len() {
        0
    } else {
        op_bound(ops[i]) + advance_bound(ops, i + 1)
    }
}

/// A releasing tail never promises a negative advance.
proof fn lemma_advance_bound_nonneg(ops: Seq<UnwindOperation>, i: int)
    requires
        releasing_from(ops, i),
    ensures
        advance_bound(ops, i) >= 0,
    decreases ops.len() - i,
{
    reveal(advance_bound);
    if 0 <= i < ops.len() {
        lemma_advance_bound_nonneg(ops, i + 1);
    }
}

/// Popping under a mask that leaves R13 alone moves R13 up by at most four
/// bytes per remaining bit, and keeps it known.
proof fn lemma_pop_releases(mask: u16, bit: int, st: ExecState, mem: Map<u32, u32>)
    requires
        (mask >> 13u16) & 1u16 == 0,
        0 <= bit <= 16,
        st.regs.wf(),
        st.regs.get(13) is Some,
        st.regs.vals[13] + 4 * (16 - bit) <= u32::MAX,
    ensures
        pop_mask_step(mask, bit, st, mem) matches Ok(st2) ==> {
            &&& st2.regs.wf()
            &&& st2.regs.get(13) is Some
            &&& st.regs.vals[13] <= st2.regs.vals[13] <= st.regs.vals[13] + 4 * (16 - bit)
        },
    decreases 16 - bit,
{
    reveal(pop_mask_step);
    if bit < 16 {
        if (mask >> (bit as u16)) & 1u16 == 0 {
            lemma_pop_releases(mask, bit + 1, st, mem);
        } else {
            let bu = bit as u16;
            assert(bu != 13u16) by (bit_vector)
                requires
                    (mask >> 13u16) & 1u16 == 0,
                    (mask >> bu) & 1u16 != 0,
            ;
            assert(bit != 13);
            match st.regs.get(13) {
                None => {},
                Some(a) => {
                    if mem.dom().contains(a) {
                        let r1 = st.regs.set(bit, mem[a]);
                        match r1.get(13) {
                            None => {},
                            Some(s2) => {
                                let st2 = ExecState {
                                    regs: r1.set(13, vsp_plus(s2, 4)),
                                    ra: if bit == 14 || bit == 15 {
                                        Some(a)
                                    } else {
                                        st.ra
                                    },
                                    popped_pc: st.popped_pc || bit == 15,
                                };
                                assert(s2 == st.regs.vals[13]);
                                assert(vsp_plus(s2, 4) == s2 + 4);
                                lemma_pop_releases(mask, bit + 1, st2, mem);
                            },
                        }
                    }
                },
            }
        }
    }
}

/// Running a releasing tail keeps R13 known and never lowers it, as long
/// as the promised advance cannot wrap the 32-bit stack pointer.
proof fn lemma_exec_releases(ops: Seq<UnwindOperation>, i: int, st: ExecState, mem: Map<u32, u32>)
    requires
        releasing_from(ops, i),
        st.regs.wf(),
        st.regs.get(13) is Some,
        st.regs.vals[13] + advance_bound(ops, i) <= u32::MAX,
    ensures
        spec_exec_ops(ops, i, st, mem) matches Ok(o) ==> {
            &&& o.regs.vals[13] >= st.regs.vals[13]
            &&& o.regs.get(13) is Some
        },
    decreases ops.len() - i,
{
    reveal(spec_exec_ops);
    reveal(advance_bound);
    if 0 <= i < ops.len() {
        lemma_advance_bound_nonneg(ops, i + 1);
        match ops[i] {
            UnwindOperation::Finish => {},
            UnwindOperation::Refuse => {},
            UnwindOperation::PopRegsUnderMask(mask) => {
                lemma_pop_releases(mask, 0, st, mem);
                match pop_mask_step(mask, 0, st, mem) {
                    Ok(st2) => {
                        lemma_exec_releases(ops, i + 1, st2, mem);
                    },
                    Err(_) => {},
                }
            },
            UnwindOperation::AddToVsp(d) => {
                match st.regs.get(13) {
                    None => {},
                    Some(sp) => {
                        let st2 = ExecState {
                            regs: st.regs.set(
                                13,
                                vstd::wrapping::u32_specs::wrapping_add_signed(sp, d),
                            ),
                            ra: st.ra,
                            popped_pc: st.popped_pc,
                        };
                        lemma_exec_releases(ops, i + 1, st2, mem);
                    },
                }
            },
            UnwindOperation::PopFloatRegs(_first, count) => {
                match st.regs.get(13) {
                    None => {},
                    Some(sp) => {
                        let st2 = ExecState {
                            regs: st.regs.set(13, vsp_plus(sp, (8 * (count as u32)) as u32)),
                            ra: st.ra,
                            popped_pc: st.popped_pc,
                        };
                        lemma_exec_releases(ops, i + 1, st2, mem);
                    },
                }
            },
            _ => {},
        }
    }
}

/// The stack grows downward, and unwinding only releases: executing a
/// recipe of releasing operations on a register file whose R13 is known
/// leaves the new R13 at or above the old one (provided the recipe's total
/// advance cannot wrap the 32-bit stack pointer).
pub proof fn lemma_unwind_releases_stack(
    ops: Seq<UnwindOperation>,
    regs: RegsSnapshot,
    mem: Map<u32, u32>,
)
    requires
        releasing_from(ops, 0),
        regs.wf(),
        regs.get(13) is Some,
        regs.vals[13] + advance_bound(ops, 0) <= u32::MAX,
    ensures
        spec_execute(ops, regs, mem) matches Ok(o) ==> o.regs.vals[13] >= regs.vals[13],
{
    lemma_exec_releases(ops, 0, ExecState { regs, ra: None, popped_pc: false }, mem);
}

} // verus!
