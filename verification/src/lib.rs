//! Verified core of an ARM (32-bit) stack unwinder for a sampling profiler.
//!
//! Given a snapshot of the CPU registers and an abstract view of a suspended
//! process's memory, the core reconstructs the chain of return addresses that
//! led to the current program counter, one frame per call.  The unwind rules
//! come from the ARM EHABI `.ARM.exidx` / `.ARM.extab` exception tables.

pub mod args;
pub mod arm;
pub mod cache;
pub mod cmd_collate;
pub mod decoder;
pub mod dwarf;
pub mod executor;
pub mod exidx;
pub mod memory;
pub mod metadata;
pub mod prel31;
pub mod registers;
pub mod types;
pub mod words;
