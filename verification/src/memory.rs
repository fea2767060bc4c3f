//! The services the unwinder consumes from its surroundings: a reader for
//! the suspended process's memory and a lookup from instruction addresses
//! to the loaded binary (with its unwind-table sections).
//!
//! Both are traits the embedding program implements; their contracts are
//! what every proof about the unwinder assumes of that program.

use vstd::prelude::*;
use crate::registers::{Regs, RegsSnapshot};

verus! {

/// Read access to the target address space.  The ghost map `mem` gives the
/// little-endian 32-bit word readable at each address; an address outside
/// the map is inaccessible or unmapped.
pub trait MemoryReader: Sized {
    spec fn mem(&self) -> Map<u32, u32>;

    /// Read the little-endian 32-bit word at `address`, or nothing when the
    /// address is not readable.
    fn read_u32_le(&self, address: u32) -> (r: Option<u32>)
        ensures
            r == (if self.mem().dom().contains(address) {
                Some(self.mem()[address])
            } else {
                None::<u32>
            }),
    ;

    /// Read a pointer-sized value; on 32-bit ARM this is the same word.
    fn read_pointer(&self, address: u32) -> (r: Option<u32>)
        ensures
            r == (if self.mem().dom().contains(address) {
                Some(self.mem()[address])
            } else {
                None::<u32>
            }),
    ;
}

/// A loaded binary as the unwinder sees it: its file bytes and where its
/// `.ARM.exidx` / `.ARM.extab` sections sit, both in the file and in memory.
pub struct BinaryData {
    /// The binary's bytes (at least the parts holding the two sections).
    pub bytes: Vec<u8>,
    /// Byte range of `.ARM.exidx` within `bytes`, if the section exists.
    pub exidx_range: Option<(usize, usize)>,
    /// Byte range of `.ARM.extab` within `bytes`, if the section exists.
    pub extab_range: Option<(usize, usize)>,
    /// In-memory address of `.ARM.exidx`, when known.
    pub exidx_address: Option<u32>,
    /// In-memory address of `.ARM.extab`, when known.
    pub extab_address: Option<u32>,
}

/// Ghost mirror of `BinaryData`.
pub struct BinaryView {
    pub bytes: Seq<u8>,
    pub exidx_range: Option<(usize, usize)>,
    pub extab_range: Option<(usize, usize)>,
    pub exidx_address: Option<u32>,
    pub extab_address: Option<u32>,
}

impl View for BinaryData {
    type V = BinaryView;

    open spec fn view(&self) -> BinaryView {
        BinaryView {
            bytes: self.bytes@,
            exidx_range: self.exidx_range,
            extab_range: self.extab_range,
            exidx_address: self.exidx_address,
            extab_address: self.extab_address,
        }
    }
}

/// Mapping from a sampled register state to the binary containing its
/// program counter.  `lookup_spec` fixes the answer as a function of the
/// frame number and register state alone, so an unwind step is a function
/// of its declared inputs.
pub trait BinaryLookup: Sized {
    spec fn lookup_spec(&self, nth_frame: int, regs: RegsSnapshot) -> Option<BinaryView>;

    /// The binary whose text covers the program counter in `regs`, or
    /// nothing when no loaded binary covers it.
    fn lookup_binary(&self, nth_frame: usize, regs: &Regs) -> (r: Option<&BinaryData>)
        ensures
            match r {
                Some(b) => self.lookup_spec(nth_frame as int, regs@) == Some(b@),
                None => self.lookup_spec(nth_frame as int, regs@) is None,
            },
    ;
}

/// The first value recorded for address `a` at or after index `i`.
pub open spec fn lookup_word(words: Seq<(u32, u32)>, a: u32, i: int) -> Option<u32>
    decreases words.len() - i,
{
    if i < 0 || i >= words.len() {
        None
    } else if words[i].0 == a {
        Some(words[i].1)
    } else {
        lookup_word(words, a, i + 1)
    }
}

/// A snapshot of a target: a word-addressed memory image and the one
/// binary its program counter can fall in.  The simplest embedding of the
/// two services, also used by the tests.
pub struct SnapshotEnv {
    /// Readable words, as `(address, value)` pairs; the first pair wins.
    pub words: Vec<(u32, u32)>,
    pub binary: Option<BinaryData>,
}

impl MemoryReader for SnapshotEnv {
    open spec fn mem(&self) -> Map<u32, u32> {
        Map::new(
            |a: u32| lookup_word(self.words@, a, 0) is Some,
            |a: u32| lookup_word(self.words@, a, 0).unwrap(),
        )
    }

    fn read_u32_le(&self, address: u32) -> (r: Option<u32>)
        ensures
            r == (if self.mem().dom().contains(address) {
                Some(self.mem()[address])
            } else {
                None::<u32>
            }),
    {
        let n = self.words.len();
        let mut i: usize = 0;
        while i < n
            invariant
                0 <= i <= n == self.words@.len(),
                lookup_word(self.words@, address, 0) == lookup_word(self.words@, address, i as int),
            decreases n - i,
        {
            let (a, v) = self.words[i];
            if a == address {
                proof {
                    assert(self.mem().dom().contains(address));
                    assert(self.mem()[address] == v);
                }
                return Some(v);
            }
            i = i + 1;
        }
        proof {
            assert(!self.mem().dom().contains(address));
        }
        None
    }

    fn read_pointer(&self, address: u32) -> (r: Option<u32>)
        ensures
            r == (if self.mem().dom().contains(address) {
                Some(self.mem()[address])
            } else {
                None::<u32>
            }),
    {
        self.read_u32_le(address)
    }
}

impl BinaryLookup for SnapshotEnv {
    open spec fn lookup_spec(&self, nth_frame: int, regs: RegsSnapshot) -> Option<BinaryView> {
        match self.binary {
            Some(b) => Some(b@),
            None => None,
        }
    }

    fn lookup_binary(&self, nth_frame: usize, regs: &Regs) -> (r: Option<&BinaryData>)
        ensures
            match r {
                Some(b) => self.lookup_spec(nth_frame as int, regs@) == Some(b@),
                None => self.lookup_spec(nth_frame as int, regs@) is None,
            },
    {
        self.binary.as_ref()
    }
}

} // verus!
