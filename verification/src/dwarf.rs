//! DWARF register numbers for the 32-bit ARM architecture.

use vstd::prelude::*;

verus! {

pub const R0: u16 = 0;
pub const R1: u16 = 1;
pub const R2: u16 = 2;
pub const R3: u16 = 3;
pub const R4: u16 = 4;
pub const R5: u16 = 5;
pub const R6: u16 = 6;
pub const R7: u16 = 7;
pub const R8: u16 = 8;
pub const R9: u16 = 9;
pub const R10: u16 = 10;
pub const R11: u16 = 11;
pub const R12: u16 = 12;
pub const R13: u16 = 13;
pub const R14: u16 = 14;
pub const R15: u16 = 15;

} // verus!
