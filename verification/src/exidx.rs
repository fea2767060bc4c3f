//! The EHABI table index: locating, for a given program counter, the
//! `.ARM.exidx` entry that covers it.
//!
//! The section is an array of 8-byte records, each two little-endian 32-bit
//! words.  Word 0 is the PREL31-encoded function start address; the records
//! are sorted by decoded start ascending, and the search assumes that order.

use vstd::prelude::*;
use crate::prel31::{spec_prel31_target, prel31_target, wrap_add32};
use crate::types::Error;
use crate::words::{spec_word_at, read_word_at};

verus! {

/// How many 8-byte entries the section holds; trailing bytes are ignored.
pub open spec fn entry_count(exidx: Seq<u8>) -> int {
    exidx.len() as int / 8
}

/// Word 0 of entry `i`.
pub open spec fn word0(exidx: Seq<u8>, i: int) -> u32 {
    spec_word_at(exidx, 8 * i)
}

/// Word 1 of entry `i`.
pub open spec fn word1(exidx: Seq<u8>, i: int) -> u32 {
    spec_word_at(exidx, 8 * i + 4)
}

/// The in-memory address of entry `i` when the section is loaded at `base`.
pub open spec fn entry_addr(base: u32, i: int) -> u32 {
    wrap_add32(base, (8 * i % 0x1_0000_0000) as u32)
}

/// Entry `i` keeps the reserved high bit of Word 0 clear.
pub open spec fn entry_ok(exidx: Seq<u8>, i: int) -> bool {
    word0(exidx, i) >> 31u32 == 0u32
}

/// The absolute function start address entry `i` decodes to.
pub open spec fn fn_start(exidx: Seq<u8>, base: u32, i: int) -> u32 {
    spec_prel31_target(word0(exidx, i), entry_addr(base, i))
}

/// The EHABI sort invariant: decoded function starts ascend.
pub open spec fn starts_sorted(exidx: Seq<u8>, base: u32) -> bool {
    forall|i: int, j: int|
        0 <= i <= j < entry_count(exidx) ==> fn_start(exidx, base, i) <= fn_start(exidx, base, j)
}

/// The lower bound a binary search over `[lo, hi)` narrows to: the number
/// of entries taken to start at or below `pc`.  This mirrors the executable
/// search step for step, so it is its meaning on every input, sorted or not.
#[verifier::opaque]
pub open spec fn search_bound(exidx: Seq<u8>, base: u32, pc: u32, lo: int, hi: int) -> int
    decreases hi - lo,
{
    if lo >= hi {
        lo
    } else {
        let mid = (lo + hi) / 2;
        if fn_start(exidx, base, mid) <= pc {
            search_bound(exidx, base, pc, mid + 1, hi)
        } else {
            search_bound(exidx, base, pc, lo, mid)
        }
    }
}

/// The index of the entry the search selects for `pc`, or the error that
/// rules it out: no coverage when every start lies above `pc` (or the
/// section is empty), a malformed entry when the selected Word 0 has its
/// reserved high bit set.
pub open spec fn spec_find_entry(exidx: Seq<u8>, base: u32, pc: u32) -> Result<int, Error> {
    let bound = search_bound(exidx, base, pc, 0, entry_count(exidx));
    if bound == 0 {
        Err(Error::UncoveredAddress)
    } else if !entry_ok(exidx, bound - 1) {
        Err(Error::MalformedEntry)
    } else {
        Ok(bound - 1)
    }
}

/// Decode the function start of entry `i` (the high bit is ignored here and
/// checked by the caller on the selected entry alone).
pub(crate) fn entry_fn_start(exidx: &[u8], base: u32, i: usize) -> (r: u32)
    requires
        exidx@.len() < 0x1_0000_0000,
        8 * i + 8 <= exidx@.len(),
    ensures
        r == fn_start(exidx@, base, i as int),
{
    let w0 = read_word_at(exidx, 8 * i);
    prel31_target(w0, base.wrapping_add((8 * i) as u32))
}

/// Binary search for the entry whose start is the greatest at or below
/// `pc`.  On a sorted section the result is exactly the covering entry;
/// on any section it is `search_bound`'s pick, re-checked by the caller.
pub fn find_entry(exidx: &[u8], base: u32, pc: u32) -> (r: Result<usize, Error>)
    requires
        exidx@.len() < 0x1_0000_0000,
    ensures
        r == match spec_find_entry(exidx@, base, pc) {
            Ok(i) => Result::<usize, Error>::Ok(i as usize),
            Err(e) => Result::<usize, Error>::Err(e),
        },
{
    proof {
        reveal(search_bound);
    }
    let n = exidx.len() / 8;
    let mut lo: usize = 0;
    let mut hi: usize = n;
    while lo < hi
        invariant
            exidx@.len() < 0x1_0000_0000,
            n == entry_count(exidx@),
            0 <= lo <= hi <= n,
            search_bound(exidx@, base, pc, lo as int, hi as int)
                == search_bound(exidx@, base, pc, 0, entry_count(exidx@)),
        decreases hi - lo,
    {
        let mid = lo + (hi - lo) / 2;
        proof {
            reveal(search_bound);
            assert(mid as int == (lo as int + hi as int) / 2);
        }
        let start = entry_fn_start(exidx, base, mid);
        if start <= pc {
            lo = mid + 1;
        } else {
            hi = mid;
        }
    }
    proof {
        reveal(search_bound);
    }
    if lo == 0 {
        return Err(Error::UncoveredAddress);
    }
    let idx = lo - 1;
    let w0 = read_word_at(exidx, 8 * idx);
    if w0 >> 31u32 != 0u32 {
        return Err(Error::MalformedEntry);
    }
    Ok(idx)
}

/// On a sorted section the selected entry is the covering one: its start is
/// at or below `pc` and the next entry, if any, starts above `pc`; and no
/// entry is selected exactly when the section is empty or every decoded
/// start lies above `pc`.
pub proof fn lemma_search_covers(exidx: Seq<u8>, base: u32, pc: u32)
    requires
        starts_sorted(exidx, base),
    ensures
        match spec_find_entry(exidx, base, pc) {
            Ok(i) => {
                &&& 0 <= i < entry_count(exidx)
                &&& fn_start(exidx, base, i) <= pc
                &&& i + 1 < entry_count(exidx) ==> pc < fn_start(exidx, base, i + 1)
                &&& entry_ok(exidx, i)
            },
            Err(e) => e == Error::MalformedEntry || (forall|k: int|
                0 <= k < entry_count(exidx) ==> fn_start(exidx, base, k) > pc),
        },
{
    let n = entry_count(exidx);
    lemma_search_bound_props(exidx, base, pc, 0, n);
}

/// The search window property: every entry below the returned bound starts
/// at or below `pc`, every entry from the bound on starts above it.
proof fn lemma_search_bound_props(exidx: Seq<u8>, base: u32, pc: u32, lo: int, hi: int)
    requires
        starts_sorted(exidx, base),
        0 <= lo <= hi <= entry_count(exidx),
        forall|k: int| 0 <= k < lo ==> fn_start(exidx, base, k) <= pc,
        forall|k: int| hi <= k < entry_count(exidx) ==> fn_start(exidx, base, k) > pc,
    ensures
        ({
            let b = search_bound(exidx, base, pc, lo, hi);
            &&& lo <= b <= hi
            &&& forall|k: int| 0 <= k < b ==> fn_start(exidx, base, k) <= pc
            &&& forall|k: int| b <= k < entry_count(exidx) ==> fn_start(exidx, base, k) > pc
        }),
    decreases hi - lo,
{
    reveal(search_bound);
    if lo < hi {
        let mid = (lo + hi) / 2;
        if fn_start(exidx, base, mid) <= pc {
            assert forall|k: int| 0 <= k < mid + 1 implies fn_start(exidx, base, k) <= pc by {
                if lo <= k <= mid {
                    assert(fn_start(exidx, base, k) <= fn_start(exidx, base, mid));
                }
            }
            lemma_search_bound_props(exidx, base, pc, mid + 1, hi);
        } else {
            assert forall|k: int| mid <= k < entry_count(exidx) implies
                fn_start(exidx, base, k) > pc by {
                if k < hi {
                    assert(fn_start(exidx, base, mid) <= fn_start(exidx, base, k));
                }
            }
            lemma_search_bound_props(exidx, base, pc, lo, mid);
        }
    }
}

/// The search bound always lands inside the window it was given.
pub proof fn lemma_search_bound_range(exidx: Seq<u8>, base: u32, pc: u32, lo: int, hi: int)
    requires
        lo <= hi,
    ensures
        lo <= search_bound(exidx, base, pc, lo, hi) <= hi,
    decreases hi - lo,
{
    reveal(search_bound);
    if lo < hi {
        let mid = (lo + hi) / 2;
        if fn_start(exidx, base, mid) <= pc {
            lemma_search_bound_range(exidx, base, pc, mid + 1, hi);
        } else {
            lemma_search_bound_range(exidx, base, pc, lo, mid);
        }
    }
}

} // verus!
