//! Shared data model: unwind operations, the error taxonomy and the status
//! reported for each unwound frame.

use vstd::prelude::*;

verus! {

/// One step of a decoded unwind recipe, in the order the executor applies it.
#[derive(Clone, Copy, PartialEq, Eq, Structural, Debug)]
pub enum UnwindOperation {
    /// Pop the core registers named by the mask (bit `i` stands for `Ri`)
    /// from the stack in ascending register-number order, four bytes each,
    /// advancing the stack pointer.
    PopRegsUnderMask(u16),
    /// Overwrite R13 with the given value.
    SetVsp(u32),
    /// Add the signed delta to R13.
    AddToVsp(i32),
    /// Copy the named register into R13.
    VspFromReg(u8),
    /// Advance the stack pointer past `count` eight-byte registers starting
    /// at `first`; floating-point registers are not tracked, so nothing is
    /// read.
    PopFloatRegs(u8, u8),
    /// Terminate the recipe; the current R14 becomes the new R15 unless the
    /// recipe popped R15 itself.
    Finish,
    /// The unwinder gives up on this frame (treated as end of stack).
    Refuse,
}

/// Why an unwind step stopped short of producing a caller frame.
#[derive(Clone, Copy, PartialEq, Eq, Structural, Debug)]
pub enum Error {
    /// Normal termination: null program counter, an explicit refusal, or the
    /// `cantunwind` sentinel.
    EndOfStack,
    /// The program counter falls outside every exidx entry of its binary.
    UncoveredAddress,
    /// The binary has no `.ARM.exidx` section or its base address is unknown.
    MissingTables,
    /// A memory read during a pop returned nothing.
    TruncatedStack,
    /// The decoder met an unassigned or unsupported opcode.
    UnsupportedInstruction,
    /// A reserved PREL31 high bit, an out-of-range offset or an inconsistent
    /// word count.
    MalformedEntry,
}

/// Outcome of one successful unwind step.
#[derive(Clone, Copy, PartialEq, Eq, Structural, Debug)]
pub enum UnwindStatus {
    /// Another frame may exist.
    InProgress,
    /// The bottom of the stack was reached normally.
    Finished,
}

} // verus!
