use nperf_core::arm::{Arch, State};
use nperf_core::dwarf;
use nperf_core::memory::{BinaryData, SnapshotEnv};
use nperf_core::prel31::prel31_encode;
use nperf_core::registers::Regs;
use nperf_core::types::UnwindStatus;

const EXIDX_BASE: u32 = 0x0001_0000;

/// A binary with one exidx entry per `(function_start, word1)` pair and the
/// given extab payload.
fn make_binary(entries: &[(u32, u32)], extab: Vec<u8>, extab_base: u32) -> BinaryData {
    let mut bytes = Vec::new();
    for (i, (fstart, word1)) in entries.iter().enumerate() {
        let word0 = prel31_encode(*fstart, EXIDX_BASE + 8 * i as u32);
        bytes.extend_from_slice(&word0.to_le_bytes());
        bytes.extend_from_slice(&word1.to_le_bytes());
    }
    let exidx_len = bytes.len();
    let extab_len = extab.len();
    bytes.extend_from_slice(&extab);
    BinaryData {
        bytes,
        exidx_range: Some((0, exidx_len)),
        extab_range: if extab_len == 0 { None } else { Some((exidx_len, exidx_len + extab_len)) },
        exidx_address: Some(EXIDX_BASE),
        extab_address: if extab_len == 0 { None } else { Some(extab_base) },
    }
}

fn unwind_once(
    env: &SnapshotEnv,
    regs: &mut Regs,
    state: &mut State,
) -> (Option<UnwindStatus>, Option<u32>, Option<u32>) {
    let mut initial = None;
    let mut ra = None;
    let status = Arch::unwind(0, env, state, regs, &mut initial, &mut ra);
    (status, initial, ra)
}

#[test]
fn cantunwind_sentinel_finishes_without_reading_memory() {
    let env = SnapshotEnv {
        words: Vec::new(),
        binary: Some(make_binary(&[(0x8000, 0x0000_0001)], Vec::new(), 0)),
    };
    let mut regs = Regs::new();
    regs.set(dwarf::R15, 0x8000);
    regs.set(dwarf::R13, 0x1000);
    let mut state = Arch::initial_state();
    let (status, initial, ra) = unwind_once(&env, &mut regs, &mut state);
    assert_eq!(status, Some(UnwindStatus::Finished));
    assert_eq!(initial, Some(0x8000));
    assert_eq!(ra, None);
}

#[test]
fn inline_compact_pops_r4_and_lr() {
    // personality 0, bytes A8 B0 00: pop {r4, r14}, then finish
    let env = SnapshotEnv {
        words: vec![(0x1000, 0x4444_4444), (0x1004, 0x5555_5555)],
        binary: Some(make_binary(&[(0x8000, 0x80A8_B000)], Vec::new(), 0)),
    };
    let mut regs = Regs::new();
    regs.set(dwarf::R15, 0x8010);
    regs.set(dwarf::R13, 0x1000);
    let mut state = Arch::initial_state();
    let (status, initial, ra) = unwind_once(&env, &mut regs, &mut state);
    assert_eq!(status, Some(UnwindStatus::InProgress));
    assert_eq!(initial, Some(0x8000));
    assert_eq!(ra, Some(0x1004));
    assert_eq!(regs.get(dwarf::R4), Some(0x4444_4444));
    assert_eq!(regs.get(dwarf::R14), Some(0x5555_5555));
    assert_eq!(regs.get(dwarf::R15), Some(0x5555_5555));
    assert_eq!(regs.get(dwarf::R13), Some(0x1008));
}

#[test]
fn pop_range_with_lr_reads_six_words() {
    // byte AC: pop {r4-r8, r14}
    let env = SnapshotEnv {
        words: vec![
            (0x1000, 0x40),
            (0x1004, 0x50),
            (0x1008, 0x60),
            (0x100C, 0x70),
            (0x1010, 0x80),
            (0x1014, 0x9000),
        ],
        binary: Some(make_binary(&[(0x8000, 0x80AC_B000)], Vec::new(), 0)),
    };
    let mut regs = Regs::new();
    regs.set(dwarf::R15, 0x8010);
    regs.set(dwarf::R13, 0x1000);
    let mut state = Arch::initial_state();
    let (status, _initial, ra) = unwind_once(&env, &mut regs, &mut state);
    assert_eq!(status, Some(UnwindStatus::InProgress));
    assert_eq!(ra, Some(0x1014));
    assert_eq!(regs.get(dwarf::R4), Some(0x40));
    assert_eq!(regs.get(dwarf::R8), Some(0x80));
    assert_eq!(regs.get(dwarf::R14), Some(0x9000));
    assert_eq!(regs.get(dwarf::R15), Some(0x9000));
    assert_eq!(regs.get(dwarf::R13), Some(0x1018));
}

#[test]
fn vsp_from_r7_then_finish() {
    // bytes 97 B0: vsp = r7, finish
    let env = SnapshotEnv {
        words: Vec::new(),
        binary: Some(make_binary(&[(0x8000, 0x8097_B000)], Vec::new(), 0)),
    };
    let mut regs = Regs::new();
    regs.set(dwarf::R15, 0x8004);
    regs.set(dwarf::R13, 0x1234);
    regs.set(dwarf::R7, 0x2000);
    regs.set(dwarf::R14, 0x9000);
    let mut state = Arch::initial_state();
    let (status, _initial, _ra) = unwind_once(&env, &mut regs, &mut state);
    assert_eq!(status, Some(UnwindStatus::InProgress));
    assert_eq!(regs.get(dwarf::R13), Some(0x2000));
    assert_eq!(regs.get(dwarf::R15), Some(0x9000));
}

#[test]
fn add_to_vsp_sixteen_bytes() {
    // byte 03: vsp += (3 << 2) + 4 = 16, then finish
    let env = SnapshotEnv {
        words: Vec::new(),
        binary: Some(make_binary(&[(0x8000, 0x8003_B000)], Vec::new(), 0)),
    };
    let mut regs = Regs::new();
    regs.set(dwarf::R15, 0x8004);
    regs.set(dwarf::R13, 0x3000);
    regs.set(dwarf::R14, 0x9000);
    let mut state = Arch::initial_state();
    let (status, _initial, _ra) = unwind_once(&env, &mut regs, &mut state);
    assert_eq!(status, Some(UnwindStatus::InProgress));
    assert_eq!(regs.get(dwarf::R13), Some(0x3010));
}

#[test]
fn refuse_mask_finishes() {
    // bytes 80 00: refuse to unwind
    let env = SnapshotEnv {
        words: Vec::new(),
        binary: Some(make_binary(&[(0x8000, 0x8080_0000)], Vec::new(), 0)),
    };
    let mut regs = Regs::new();
    regs.set(dwarf::R15, 0x8004);
    regs.set(dwarf::R13, 0x1000);
    let mut state = Arch::initial_state();
    let (status, _initial, _ra) = unwind_once(&env, &mut regs, &mut state);
    assert_eq!(status, Some(UnwindStatus::Finished));
}

#[test]
fn null_return_address_finishes() {
    // bytes 84 00 B0: pop {r14} (= 0), finish; a null R15 ends the stack
    let env = SnapshotEnv {
        words: vec![(0x1000, 0)],
        binary: Some(make_binary(&[(0x8000, 0x8084_00B0)], Vec::new(), 0)),
    };
    let mut regs = Regs::new();
    regs.set(dwarf::R15, 0x8004);
    regs.set(dwarf::R13, 0x1000);
    let mut state = Arch::initial_state();
    let (status, _initial, _ra) = unwind_once(&env, &mut regs, &mut state);
    assert_eq!(status, Some(UnwindStatus::Finished));
}

#[test]
fn extab_personality_one_recipe() {
    // extab header: compact, personality 1, one more word; bytes 03 97 from
    // the header then B0 00 00 00 from the word: vsp += 16, vsp = r7, finish
    let extab_base: u32 = 0x0002_0000;
    let mut extab = Vec::new();
    extab.extend_from_slice(&0x8101_0397u32.to_le_bytes());
    extab.extend_from_slice(&0xB000_0000u32.to_le_bytes());
    // word1 is a prel31 reference to the extab header from the second word
    // of the exidx entry
    let word1 = prel31_encode(extab_base, EXIDX_BASE + 4);
    let env = SnapshotEnv {
        words: Vec::new(),
        binary: Some(make_binary(&[(0x8000, word1)], extab, extab_base)),
    };
    let mut regs = Regs::new();
    regs.set(dwarf::R15, 0x8004);
    regs.set(dwarf::R13, 0x1234);
    regs.set(dwarf::R7, 0x2000);
    regs.set(dwarf::R14, 0x9000);
    let mut state = Arch::initial_state();
    let (status, _initial, _ra) = unwind_once(&env, &mut regs, &mut state);
    assert_eq!(status, Some(UnwindStatus::InProgress));
    assert_eq!(regs.get(dwarf::R13), Some(0x2000));
    assert_eq!(regs.get(dwarf::R15), Some(0x9000));
}

#[test]
fn second_unwind_hits_cache_with_identical_result() {
    let binary = make_binary(&[(0x8000, 0x80A8_B000)], Vec::new(), 0);
    let env = SnapshotEnv {
        words: vec![(0x1000, 0x4444_4444), (0x1004, 0x5555_5555)],
        binary: Some(binary),
    };
    let mut state = Arch::initial_state();

    let mut regs1 = Regs::new();
    regs1.set(dwarf::R15, 0x8010);
    regs1.set(dwarf::R13, 0x1000);
    let (status1, _initial1, ra1) = unwind_once(&env, &mut regs1, &mut state);

    // same starting registers again: the cached recipe must reproduce the
    // first result exactly
    let mut regs2 = Regs::new();
    regs2.set(dwarf::R15, 0x8010);
    regs2.set(dwarf::R13, 0x1000);
    let (status2, initial2, ra2) = unwind_once(&env, &mut regs2, &mut state);

    assert_eq!(status1, status2);
    assert_eq!(ra1, ra2);
    // the cache path does not re-derive the function start
    assert_eq!(initial2, None);
    for reg in 0..16 {
        assert_eq!(regs1.get(reg), regs2.get(reg));
    }
}

#[test]
fn clear_cache_is_transparent() {
    let binary = make_binary(&[(0x8000, 0x80A8_B000)], Vec::new(), 0);
    let env = SnapshotEnv {
        words: vec![(0x1000, 0x4444_4444), (0x1004, 0x5555_5555)],
        binary: Some(binary),
    };

    let mut fresh_state = Arch::initial_state();
    let mut regs1 = Regs::new();
    regs1.set(dwarf::R15, 0x8010);
    regs1.set(dwarf::R13, 0x1000);
    let first = unwind_once(&env, &mut regs1, &mut fresh_state);

    let mut used_state = Arch::initial_state();
    let mut scratch = Regs::new();
    scratch.set(dwarf::R15, 0x8010);
    scratch.set(dwarf::R13, 0x1000);
    let _ = unwind_once(&env, &mut scratch, &mut used_state);
    Arch::clear_cache(&mut used_state);

    let mut regs2 = Regs::new();
    regs2.set(dwarf::R15, 0x8010);
    regs2.set(dwarf::R13, 0x1000);
    let second = unwind_once(&env, &mut regs2, &mut used_state);

    assert_eq!(first, second);
    for reg in 0..16 {
        assert_eq!(regs1.get(reg), regs2.get(reg));
    }
}

#[test]
fn uncovered_pc_falls_back_to_lr_on_innermost_frame() {
    let env = SnapshotEnv {
        words: Vec::new(),
        binary: Some(make_binary(&[(0x8000, 0x0000_0001)], Vec::new(), 0)),
    };
    let mut regs = Regs::new();
    regs.set(dwarf::R15, 0x7000); // below the first entry's start
    regs.set(dwarf::R14, 0x9000);
    let mut state = Arch::initial_state();
    let mut initial = None;
    let mut ra = None;
    let status = Arch::unwind(0, &env, &mut state, &mut regs, &mut initial, &mut ra);
    assert_eq!(status, Some(UnwindStatus::InProgress));
    assert_eq!(regs.get(dwarf::R15), Some(0x9000));
}

#[test]
fn uncovered_pc_is_fatal_on_deeper_frames() {
    let env = SnapshotEnv {
        words: Vec::new(),
        binary: Some(make_binary(&[(0x8000, 0x0000_0001)], Vec::new(), 0)),
    };
    let mut regs = Regs::new();
    regs.set(dwarf::R15, 0x7000);
    regs.set(dwarf::R14, 0x9000);
    let mut state = Arch::initial_state();
    let mut initial = None;
    let mut ra = None;
    let status = Arch::unwind(3, &env, &mut state, &mut regs, &mut initial, &mut ra);
    assert_eq!(status, None);
}

#[test]
fn truncated_stack_discards_the_sample() {
    // pop {r4, r14} with unreadable memory
    let env = SnapshotEnv {
        words: Vec::new(),
        binary: Some(make_binary(&[(0x8000, 0x80A8_B000)], Vec::new(), 0)),
    };
    let mut regs = Regs::new();
    regs.set(dwarf::R15, 0x8010);
    regs.set(dwarf::R13, 0x1000);
    let mut state = Arch::initial_state();
    let (status, _initial, _ra) = unwind_once(&env, &mut regs, &mut state);
    assert_eq!(status, None);
}

#[test]
fn unsupported_personality_discards_the_sample() {
    // inline form with personality 3 is not assigned
    let env = SnapshotEnv {
        words: Vec::new(),
        binary: Some(make_binary(&[(0x8000, 0x8300_0000)], Vec::new(), 0)),
    };
    let mut regs = Regs::new();
    regs.set(dwarf::R15, 0x8010);
    regs.set(dwarf::R13, 0x1000);
    let mut state = Arch::initial_state();
    let (status, _initial, _ra) = unwind_once(&env, &mut regs, &mut state);
    assert_eq!(status, None);
}

#[test]
fn extab_reference_outside_section_is_malformed() {
    // word1 with high bit clear points into extab; aim it far outside
    let extab_base: u32 = 0x0002_0000;
    let mut extab = Vec::new();
    extab.extend_from_slice(&0x8100_9700u32.to_le_bytes());
    let word1 = prel31_encode(extab_base + 0x4000, EXIDX_BASE + 4);
    let env = SnapshotEnv {
        words: Vec::new(),
        binary: Some(make_binary(&[(0x8000, word1)], extab, extab_base)),
    };
    let mut regs = Regs::new();
    regs.set(dwarf::R15, 0x8010);
    regs.set(dwarf::R13, 0x1000);
    let mut state = Arch::initial_state();
    let (status, _initial, _ra) = unwind_once(&env, &mut regs, &mut state);
    assert_eq!(status, None);
}

#[test]
fn missing_exidx_section_is_fatal() {
    let mut binary = make_binary(&[(0x8000, 0x0000_0001)], Vec::new(), 0);
    binary.exidx_range = None;
    let env = SnapshotEnv { words: Vec::new(), binary: Some(binary) };
    let mut regs = Regs::new();
    regs.set(dwarf::R15, 0x8000);
    regs.set(dwarf::R14, 0x9000);
    let mut state = Arch::initial_state();
    let mut initial = None;
    let mut ra = None;
    let status = Arch::unwind(0, &env, &mut state, &mut regs, &mut initial, &mut ra);
    assert_eq!(status, None);
}

#[test]
fn binary_search_picks_the_covering_entry() {
    // three functions; the middle one refuses, the others cantunwind
    let env = SnapshotEnv {
        words: Vec::new(),
        binary: Some(make_binary(
            &[(0x8000, 0x0000_0001), (0x9000, 0x8080_0000), (0xA000, 0x0000_0001)],
            Vec::new(),
            0,
        )),
    };
    let mut regs = Regs::new();
    regs.set(dwarf::R15, 0x9FFC); // inside the second function
    regs.set(dwarf::R13, 0x1000);
    let mut state = Arch::initial_state();
    let (status, initial, _ra) = unwind_once(&env, &mut regs, &mut state);
    assert_eq!(status, Some(UnwindStatus::Finished));
    assert_eq!(initial, Some(0x9000));
}
