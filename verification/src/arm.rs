//! The unwind driver for 32-bit ARM: one `unwind` step tries the recipe
//! cache first, otherwise locates the binary covering the program counter,
//! finds its exidx entry, decodes the recipe, caches it and executes it.

use vstd::prelude::*;
use crate::cache::{
    CacheEntryModel, UnwindInfoCache, entry_covers, spec_cache_insert, spec_cache_lookup,
};
use crate::decoder::{decode_entry, spec_decode_entry};
use crate::dwarf;
use crate::executor::{execute, spec_execute, ExecOutcome};
use crate::exidx::{
    entry_addr, entry_count, entry_fn_start, find_entry, fn_start, lemma_search_bound_range,
    spec_find_entry, word1,
};
use crate::memory::{BinaryData, BinaryLookup, BinaryView, MemoryReader};
use crate::prel31::wrap_add32;
use crate::registers::{Regs, RegsSnapshot};
use crate::types::{Error, UnwindOperation, UnwindStatus};
use crate::words::read_word_at;

verus! {

/// The 32-bit ARM architecture.
pub struct Arch {}

/// Per-context unwinder state: the recipe cache.  Not shared between
/// concurrent unwinds; each thread owns its own.
pub struct State {
    unwind_cache: UnwindInfoCache,
}

impl View for State {
    type V = Seq<CacheEntryModel>;

    closed spec fn view(&self) -> Seq<CacheEntryModel> {
        self.unwind_cache@
    }
}

/// Everything one unwind step is specified to do: the status it returns,
/// the register file it leaves behind when another frame may follow, the
/// cache afterwards, and what it writes through the two out-parameters.
pub struct StepOutcome {
    pub status: Option<UnwindStatus>,
    /// The registers after the step; binding only when `status` says a
    /// frame was reconstructed (`InProgress`).
    pub regs: RegsSnapshot,
    pub cache: Seq<CacheEntryModel>,
    pub wrote_initial: bool,
    pub initial: u32,
    pub wrote_ra: bool,
    pub ra: Option<u32>,
}

/// The step failed before reaching any table: nothing written, cache kept.
pub open spec fn fail_outcome(regs: RegsSnapshot, cache: Seq<CacheEntryModel>) -> StepOutcome {
    StepOutcome {
        status: None,
        regs,
        cache,
        wrote_initial: false,
        initial: 0,
        wrote_ra: false,
        ra: None,
    }
}

/// Fold an executor result into the step outcome: a reconstructed frame
/// reports `InProgress` and the return-address slot, the stack's end
/// reports `Finished`, any other error discards the sample's tail.
pub open spec fn outcome_of_exec(
    res: Result<ExecOutcome, Error>,
    regs: RegsSnapshot,
    cache: Seq<CacheEntryModel>,
    wrote_initial: bool,
    initial: u32,
) -> StepOutcome {
    match res {
        Ok(o) => StepOutcome {
            status: Some(UnwindStatus::InProgress),
            regs: o.regs,
            cache,
            wrote_initial,
            initial,
            wrote_ra: true,
            ra: o.ra,
        },
        Err(Error::EndOfStack) => StepOutcome {
            status: Some(UnwindStatus::Finished),
            regs,
            cache,
            wrote_initial,
            initial,
            wrote_ra: false,
            ra: None,
        },
        Err(_) => StepOutcome {
            status: None,
            regs,
            cache,
            wrote_initial,
            initial,
            wrote_ra: false,
            ra: None,
        },
    }
}

/// The innermost-frame fallback when no exidx entry covers the program
/// counter: R14 itself is taken as the return address.
pub open spec fn spec_fallback(regs: RegsSnapshot, cache: Seq<CacheEntryModel>) -> StepOutcome {
    match regs.get(14) {
        None => fail_outcome(regs, cache),
        Some(lr) => if lr == 0 {
            StepOutcome {
                status: Some(UnwindStatus::Finished),
                regs,
                cache,
                wrote_initial: false,
                initial: 0,
                wrote_ra: false,
                ra: None,
            }
        } else {
            StepOutcome {
                status: Some(UnwindStatus::InProgress),
                regs: regs.set(15, lr),
                cache,
                wrote_initial: false,
                initial: 0,
                wrote_ra: false,
                ra: None,
            }
        },
    }
}

/// The miss path: pull the two sections out of the binary, find the entry
/// covering `pc`, decode it, cache the recipe and execute it.
pub open spec fn spec_unwind_tables(
    b: BinaryView,
    cache: Seq<CacheEntryModel>,
    regs: RegsSnapshot,
    mem: Map<u32, u32>,
    nth_frame: int,
    pc: u32,
) -> StepOutcome {
    match b.exidx_range {
        None => fail_outcome(regs, cache),
        Some((elo, ehi)) => match b.exidx_address {
            None => fail_outcome(regs, cache),
            Some(exidx_base) => {
                let extab_base_opt = match b.extab_address {
                    Some(a) => Some(a),
                    None => if b.extab_range is None {
                        Some(0u32)
                    } else {
                        None
                    },
                };
                match extab_base_opt {
                    None => fail_outcome(regs, cache),
                    Some(extab_base) => if elo > ehi || ehi > b.bytes.len() || ehi - elo
                        >= 0x1_0000_0000 {
                        fail_outcome(regs, cache)
                    } else {
                        let extab_ok = match b.extab_range {
                            Some((tlo, thi)) => tlo <= thi && thi <= b.bytes.len() && thi - tlo
                                < 0x1000_0000,
                            None => true,
                        };
                        if !extab_ok {
                            fail_outcome(regs, cache)
                        } else {
                            let exidx = b.bytes.subrange(elo as int, ehi as int);
                            let extab = match b.extab_range {
                                Some((tlo, thi)) => b.bytes.subrange(tlo as int, thi as int),
                                None => Seq::<u8>::empty(),
                            };
                            spec_unwind_entry(
                                exidx,
                                exidx_base,
                                extab,
                                extab_base,
                                cache,
                                regs,
                                mem,
                                nth_frame,
                                pc,
                            )
                        }
                    },
                }
            },
        },
    }
}

/// Search, decode, cache and execute, once the two sections are in hand.
pub open spec fn spec_unwind_entry(
    exidx: Seq<u8>,
    exidx_base: u32,
    extab: Seq<u8>,
    extab_base: u32,
    cache: Seq<CacheEntryModel>,
    regs: RegsSnapshot,
    mem: Map<u32, u32>,
    nth_frame: int,
    pc: u32,
) -> StepOutcome {
    match spec_find_entry(exidx, exidx_base, pc) {
        Err(e) => if e == Error::UncoveredAddress && nth_frame == 0 {
            spec_fallback(regs, cache)
        } else {
            fail_outcome(regs, cache)
        },
        Ok(i) => {
            let fstart = fn_start(exidx, exidx_base, i);
            let w1 = word1(exidx, i);
            let w1addr = wrap_add32(entry_addr(exidx_base, i), 4);
            match spec_decode_entry(w1, w1addr, extab, extab_base) {
                Err(_) => StepOutcome {
                    status: None,
                    regs,
                    cache,
                    wrote_initial: true,
                    initial: fstart,
                    wrote_ra: false,
                    ra: None,
                },
                Ok(recipe) => {
                    let end = if i + 1 < entry_count(exidx) {
                        Some(fn_start(exidx, exidx_base, i + 1))
                    } else {
                        None
                    };
                    let cache2 = spec_cache_insert(
                        cache,
                        CacheEntryModel { start: fstart, end, recipe },
                    );
                    outcome_of_exec(spec_execute(recipe, regs, mem), regs, cache2, true, fstart)
                },
            }
        },
    }
}

/// One whole unwind step as a function of its inputs: the binary the
/// surroundings would report, the cache, the registers and the memory.
pub open spec fn spec_unwind(
    bin: Option<BinaryView>,
    cache: Seq<CacheEntryModel>,
    regs: RegsSnapshot,
    mem: Map<u32, u32>,
    nth_frame: int,
) -> StepOutcome
    recommends
        regs.get(15) is Some,
{
    let pc = regs.vals[15];
    match spec_cache_lookup(cache, pc) {
        Some(j) => outcome_of_exec(spec_execute(cache[j].recipe, regs, mem), regs, cache, false, 0),
        None => match bin {
            None => fail_outcome(regs, cache),
            Some(b) => spec_unwind_tables(b, cache, regs, mem, nth_frame, pc),
        },
    }
}

/// Copy a recipe (operations are plain values).
fn clone_ops(v: &Vec<UnwindOperation>) -> (r: Vec<UnwindOperation>)
    ensures
        r@ =~= v@,
{
    let mut r: Vec<UnwindOperation> = Vec::new();
    let mut i: usize = 0;
    while i < v.len()
        invariant
            0 <= i <= v@.len(),
            r@ =~= v@.subrange(0, i as int),
        decreases v@.len() - i,
    {
        r.push(v[i]);
        i = i + 1;
        proof {
            assert(r@ =~= v@.subrange(0, i as int));
        }
    }
    proof {
        assert(v@.subrange(0, v@.len() as int) =~= v@);
    }
    r
}

impl Arch {
    /// The conventional name of a DWARF-numbered ARM register.
    pub fn register_name_str(register: u16) -> (r: Option<&'static str>)
        ensures
            register < 16 <==> r is Some,
            register == 0 ==> (r matches Some(s) && s@ == "R0"@),
            register == 1 ==> (r matches Some(s) && s@ == "R1"@),
            register == 2 ==> (r matches Some(s) && s@ == "R2"@),
            register == 3 ==> (r matches Some(s) && s@ == "R3"@),
            register == 4 ==> (r matches Some(s) && s@ == "R4"@),
            register == 5 ==> (r matches Some(s) && s@ == "R5"@),
            register == 6 ==> (r matches Some(s) && s@ == "R6"@),
            register == 7 ==> (r matches Some(s) && s@ == "R7"@),
            register == 8 ==> (r matches Some(s) && s@ == "R8"@),
            register == 9 ==> (r matches Some(s) && s@ == "R9"@),
            register == 10 ==> (r matches Some(s) && s@ == "R10"@),
            register == 11 ==> (r matches Some(s) && s@ == "FP"@),
            register == 12 ==> (r matches Some(s) && s@ == "IP"@),
            register == 13 ==> (r matches Some(s) && s@ == "SP"@),
            register == 14 ==> (r matches Some(s) && s@ == "LR"@),
            register == 15 ==> (r matches Some(s) && s@ == "PC"@),
    {
        match register {
            0 => Some("R0"),
            1 => Some("R1"),
            2 => Some("R2"),
            3 => Some("R3"),
            4 => Some("R4"),
            5 => Some("R5"),
            6 => Some("R6"),
            7 => Some("R7"),
            8 => Some("R8"),
            9 => Some("R9"),
            10 => Some("R10"),
            11 => Some("FP"),
            12 => Some("IP"),
            13 => Some("SP"),
            14 => Some("LR"),
            15 => Some("PC"),
            _ => None,
        }
    }

    /// A fresh unwinder state: an empty cache.
    pub fn initial_state() -> (r: State)
        ensures
            r@ == Seq::<CacheEntryModel>::empty(),
    {
        State { unwind_cache: UnwindInfoCache::new() }
    }

    /// Drop every cached recipe; called when the set of loaded binaries
    /// changes.
    pub fn clear_cache(state: &mut State)
        ensures
            final(state)@ == Seq::<CacheEntryModel>::empty(),
    {
        state.unwind_cache.clear();
    }

    /// Unwind one frame: reconstruct the caller's registers from the frame
    /// the program counter in `regs` points into.  `initial_address` gets
    /// the covering function's start when a table entry is found;
    /// `ra_address` gets the address the return address was read from.
    pub fn unwind<M: MemoryReader + BinaryLookup>(
        nth_frame: usize,
        memory: &M,
        state: &mut State,
        regs: &mut Regs,
        initial_address: &mut Option<u32>,
        ra_address: &mut Option<u32>,
    ) -> (r: Option<UnwindStatus>)
        requires
            old(regs)@.get(15) is Some,
        ensures
            ({
                let out = spec_unwind(
                    memory.lookup_spec(nth_frame as int, old(regs)@),
                    old(state)@,
                    old(regs)@,
                    memory.mem(),
                    nth_frame as int,
                );
                &&& r == out.status
                &&& final(state)@ == out.cache
                &&& out.status == Some(UnwindStatus::InProgress) ==> final(regs)@ == out.regs
                &&& *final(initial_address) == (if out.wrote_initial {
                    Some(out.initial)
                } else {
                    *old(initial_address)
                })
                &&& *final(ra_address) == (if out.wrote_ra {
                    out.ra
                } else {
                    *old(ra_address)
                })
            }),
    {
        let pc = match regs.get(dwarf::R15) {
            Some(pc) => pc,
            None => {
                return None;
            },
        };
        if let Some(entry) = state.unwind_cache.lookup(pc) {
            let res = execute(entry.recipe.as_slice(), memory, regs);
            return match res {
                Ok(ra) => {
                    *ra_address = ra;
                    Some(UnwindStatus::InProgress)
                },
                Err(Error::EndOfStack) => Some(UnwindStatus::Finished),
                Err(_) => None,
            };
        }
        let binary = match memory.lookup_binary(nth_frame, regs) {
            Some(b) => b,
            None => {
                return None;
            },
        };
        unwind_tables(
            binary,
            memory,
            &mut state.unwind_cache,
            regs,
            nth_frame,
            pc,
            initial_address,
            ra_address,
        )
    }
}

/// The miss path of one unwind step, after the binary has been found.
fn unwind_tables<M: MemoryReader>(
    binary: &BinaryData,
    memory: &M,
    cache: &mut UnwindInfoCache,
    regs: &mut Regs,
    nth_frame: usize,
    pc: u32,
    initial_address: &mut Option<u32>,
    ra_address: &mut Option<u32>,
) -> (r: Option<UnwindStatus>)
    ensures
        ({
            let out = spec_unwind_tables(
                binary@,
                old(cache)@,
                old(regs)@,
                memory.mem(),
                nth_frame as int,
                pc,
            );
            &&& r == out.status
            &&& final(cache)@ == out.cache
            &&& out.status == Some(UnwindStatus::InProgress) ==> final(regs)@ == out.regs
            &&& *final(initial_address) == (if out.wrote_initial {
                Some(out.initial)
            } else {
                *old(initial_address)
            })
            &&& *final(ra_address) == (if out.wrote_ra {
                out.ra
            } else {
                *old(ra_address)
            })
        }),
{
    let (elo, ehi) = match binary.exidx_range {
        Some(p) => p,
        None => {
            return None;
        },
    };
    let exidx_base = match binary.exidx_address {
        Some(a) => a,
        None => {
            return None;
        },
    };
    let extab_base = match binary.extab_address {
        Some(a) => a,
        None => match binary.extab_range {
            None => 0u32,
            Some(_) => {
                return None;
            },
        },
    };
    if elo > ehi || ehi > binary.bytes.len() || (ehi - elo) as u64 >= 0x1_0000_0000u64 {
        return None;
    }
    if let Some((tlo, thi)) = binary.extab_range {
        if tlo > thi || thi > binary.bytes.len() || (thi - tlo) as u64 >= 0x1000_0000u64 {
            return None;
        }
    }
    let bytes = binary.bytes.as_slice();
    let exidx: &[u8] = &bytes[elo..ehi];
    let extab: &[u8] = match binary.extab_range {
        Some((tlo, thi)) => &bytes[tlo..thi],
        None => &bytes[0..0],
    };
    proof {
        assert(extab@ =~= (match binary@.extab_range {
            Some((tlo, thi)) => binary@.bytes.subrange(tlo as int, thi as int),
            None => Seq::<u8>::empty(),
        }));
    }
    unwind_entry(exidx, exidx_base, extab, extab_base, memory, cache, regs, nth_frame, pc,
        initial_address, ra_address)
}

/// Search, decode, cache and execute, once the two sections are in hand.
#[verifier::rlimit(100)]
#[verifier::spinoff_prover]
fn unwind_entry<M: MemoryReader>(
    exidx: &[u8],
    exidx_base: u32,
    extab: &[u8],
    extab_base: u32,
    memory: &M,
    cache: &mut UnwindInfoCache,
    regs: &mut Regs,
    nth_frame: usize,
    pc: u32,
    initial_address: &mut Option<u32>,
    ra_address: &mut Option<u32>,
) -> (r: Option<UnwindStatus>)
    requires
        exidx@.len() < 0x1_0000_0000,
        extab@.len() < 0x1000_0000,
    ensures
        ({
            let out = spec_unwind_entry(
                exidx@,
                exidx_base,
                extab@,
                extab_base,
                old(cache)@,
                old(regs)@,
                memory.mem(),
                nth_frame as int,
                pc,
            );
            &&& r == out.status
            &&& final(cache)@ == out.cache
            &&& out.status == Some(UnwindStatus::InProgress) ==> final(regs)@ == out.regs
            &&& *final(initial_address) == (if out.wrote_initial {
                Some(out.initial)
            } else {
                *old(initial_address)
            })
            &&& *final(ra_address) == (if out.wrote_ra {
                out.ra
            } else {
                *old(ra_address)
            })
        }),
{
    let idx = match find_entry(exidx, exidx_base, pc) {
        Ok(i) => i,
        Err(e) => {
            if nth_frame == 0 && matches!(e, Error::UncoveredAddress) {
                let lr = match regs.get(dwarf::R14) {
                    Some(lr) => lr,
                    None => {
                        return None;
                    },
                };
                if lr == 0 {
                    return Some(UnwindStatus::Finished);
                }
                regs.set(dwarf::R15, lr);
                return Some(UnwindStatus::InProgress);
            }
            return None;
        },
    };
    proof {
        lemma_search_bound_range(exidx@, exidx_base, pc, 0, entry_count(exidx@));
    }
    let n = exidx.len() / 8;
    let fstart = entry_fn_start(exidx, exidx_base, idx);
    *initial_address = Some(fstart);
    let w1 = read_word_at(exidx, 8 * idx + 4);
    let w1addr = exidx_base.wrapping_add((8 * idx) as u32).wrapping_add(4);
    proof {
        assert(w1addr == wrap_add32(entry_addr(exidx_base, idx as int), 4));
    }
    let recipe = match decode_entry(w1, w1addr, extab, extab_base) {
        Ok(r) => r,
        Err(_) => {
            return None;
        },
    };
    let end = if idx + 1 < n {
        Some(entry_fn_start(exidx, exidx_base, idx + 1))
    } else {
        None
    };
    let cached_recipe = clone_ops(&recipe);
    cache.insert(fstart, end, cached_recipe);
    let res = execute(recipe.as_slice(), memory, regs);
    match res {
        Ok(ra) => {
            *ra_address = ra;
            Some(UnwindStatus::InProgress)
        },
        Err(Error::EndOfStack) => Some(UnwindStatus::Finished),
        Err(_) => None,
    }
}

/// Two consecutive unwinds of the same program counter, against the same
/// binary and the same memory and starting from the same register file,
/// produce identical results: the recipe the first step decodes and caches
/// is exactly what the second step finds and executes, so the cache never
/// changes what a step computes.
#[verifier::rlimit(100)]
#[verifier::spinoff_prover]
pub proof fn lemma_consecutive_unwinds_agree(
    bin: Option<BinaryView>,
    cache: Seq<CacheEntryModel>,
    regs: RegsSnapshot,
    mem: Map<u32, u32>,
    nth_frame: int,
)
    requires
        regs.get(15) is Some,
    ensures
        ({
            let out1 = spec_unwind(bin, cache, regs, mem, nth_frame);
            let out2 = spec_unwind(bin, out1.cache, regs, mem, nth_frame);
            &&& out2.status == out1.status
            &&& out1.status == Some(UnwindStatus::InProgress) ==> out2.regs == out1.regs
            &&& out1.wrote_ra ==> out2.wrote_ra && out2.ra == out1.ra
        }),
{
    let pc = regs.vals[15];
    let out1 = spec_unwind(bin, cache, regs, mem, nth_frame);
    match spec_cache_lookup(cache, pc) {
        Some(_) => {},
        None => {
            crate::cache::lemma_lookup_from_none(cache, pc, 0);
            match bin {
                None => {},
                Some(b) => {
                    lemma_tables_step_agrees(b, cache, regs, mem, nth_frame, pc);
                },
            }
        },
    }
}

/// The miss path either keeps the cache (and so repeats identically) or
/// caches exactly the recipe it executed, which the repeat then finds.
#[verifier::rlimit(100)]
#[verifier::spinoff_prover]
proof fn lemma_tables_step_agrees(
    b: BinaryView,
    cache: Seq<CacheEntryModel>,
    regs: RegsSnapshot,
    mem: Map<u32, u32>,
    nth_frame: int,
    pc: u32,
)
    requires
        regs.get(15) is Some,
        pc == regs.vals[15],
        spec_cache_lookup(cache, pc) is None,
        forall|k: int| 0 <= k < cache.len() ==> !entry_covers(cache[k], pc),
    ensures
        ({
            let out1 = spec_unwind_tables(b, cache, regs, mem, nth_frame, pc);
            let out2 = spec_unwind(Some(b), out1.cache, regs, mem, nth_frame);
            &&& out2.status == out1.status
            &&& out1.status == Some(UnwindStatus::InProgress) ==> out2.regs == out1.regs
            &&& out1.wrote_ra ==> out2.wrote_ra && out2.ra == out1.ra
        }),
{
    let out1 = spec_unwind_tables(b, cache, regs, mem, nth_frame, pc);
    if out1.cache == cache {
        return;
    }
    // the cache changed, so the step reached the decode-and-execute branch
    match b.exidx_range {
        None => {},
        Some((elo, ehi)) => match b.exidx_address {
            None => {},
            Some(exidx_base) => {
                let extab_base_opt = match b.extab_address {
                    Some(a) => Some(a),
                    None => if b.extab_range is None {
                        Some(0u32)
                    } else {
                        None
                    },
                };
                match extab_base_opt {
                    None => {},
                    Some(extab_base) => {
                        let exidx = b.bytes.subrange(elo as int, ehi as int);
                        let extab = match b.extab_range {
                            Some((tlo, thi)) => b.bytes.subrange(tlo as int, thi as int),
                            None => Seq::<u8>::empty(),
                        };
                        match spec_find_entry(exidx, exidx_base, pc) {
                            Err(_) => {},
                            Ok(i) => {
                                let fstart = fn_start(exidx, exidx_base, i);
                                let w1 = word1(exidx, i);
                                let w1addr = wrap_add32(entry_addr(exidx_base, i), 4);
                                match spec_decode_entry(w1, w1addr, extab, extab_base) {
                                    Err(_) => {},
                                    Ok(recipe) => {
                                        let end = if i + 1 < entry_count(exidx) {
                                            Some(fn_start(exidx, exidx_base, i + 1))
                                        } else {
                                            None
                                        };
                                        let e = CacheEntryModel { start: fstart, end, recipe };
                                        let cache2 = spec_cache_insert(cache, e);
                                        assert(out1.cache == cache2);
                                        assert(cache2.len() >= 1 && cache2.last() == e);
                                        assert forall|j: int| 0 <= j < cache2.len() - 1 implies
                                            !entry_covers(cache2[j], pc) by {
                                            if cache.len() >= crate::cache::CACHE_CAPACITY {
                                                assert(cache2[j] == cache[j + 1]);
                                            } else {
                                                assert(cache2[j] == cache[j]);
                                            }
                                        }
                                        if entry_covers(e, pc) {
                                            crate::cache::lemma_lookup_from_finds(
                                                cache2,
                                                pc,
                                                0,
                                                cache2.len() - 1,
                                            );
                                        } else {
                                            crate::cache::lemma_lookup_from_all_uncovered(
                                                cache2,
                                                pc,
                                                0,
                                            );
                                        }
                                    },
                                }
                            },
                        }
                    },
                }
            },
        },
    }
}

/// The cache is transparent: after `clear_cache` the unwinder state equals
/// the freshly constructed one, and the step function on equal inputs is
/// one and the same, so the next unwind is bit-identical to the first
/// unwind after construction.
pub proof fn lemma_clear_cache_transparent(
    bin: Option<BinaryView>,
    regs: RegsSnapshot,
    mem: Map<u32, u32>,
    nth_frame: int,
    cleared: Seq<CacheEntryModel>,
    fresh: Seq<CacheEntryModel>,
)
    requires
        cleared == Seq::<CacheEntryModel>::empty(),
        fresh == Seq::<CacheEntryModel>::empty(),
    ensures
        spec_unwind(bin, cleared, regs, mem, nth_frame) == spec_unwind(
            bin,
            fresh,
            regs,
            mem,
            nth_frame,
        ),
{
}

} // verus!
