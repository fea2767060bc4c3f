use nperf_core::decoder::decode_entry;
use nperf_core::dwarf;
use nperf_core::executor::execute;
use nperf_core::memory::SnapshotEnv;
use nperf_core::registers::Regs;
use nperf_core::types::{Error, UnwindOperation};

fn terminator_count(recipe: &[UnwindOperation]) -> usize {
    recipe
        .iter()
        .filter(|op| matches!(op, UnwindOperation::Finish | UnwindOperation::Refuse))
        .count()
}

#[test]
fn every_recipe_ends_in_exactly_one_terminator() {
    let cases: &[u32] = &[
        0x0000_0001, // cantunwind
        0x80A8_B000, // pop {r4, r14}; finish
        0x8003_B000, // vsp += 16; finish
        0x8097_B000, // vsp = r7; finish
        0x8080_0000, // refuse
        0x8001_0203, // three adds, implicit finish
        0x80B3_1000, // pop one double, implicit finish after two spare bytes
    ];
    for &word1 in cases {
        let recipe = decode_entry(word1, 0x1_0000, &[], 0).unwrap();
        assert!(terminator_count(&recipe) == 1, "word 0x{:08X}", word1);
        assert!(matches!(
            recipe.last().unwrap(),
            UnwindOperation::Finish | UnwindOperation::Refuse
        ));
    }
}

#[test]
fn decoding_stops_at_the_first_finish() {
    // bytes B0 01 02: the adds after the finish are never decoded
    let recipe = decode_entry(0x80B0_0102, 0x1_0000, &[], 0).unwrap();
    assert_eq!(recipe, vec![UnwindOperation::Finish]);
}

#[test]
fn unassigned_opcodes_are_unsupported() {
    // byte B4 is unassigned
    assert_eq!(
        decode_entry(0x80B4_0000, 0x1_0000, &[], 0),
        Err(Error::UnsupportedInstruction)
    );
    // vsp = r13 and vsp = r15 are reserved
    assert_eq!(
        decode_entry(0x809D_B000, 0x1_0000, &[], 0),
        Err(Error::UnsupportedInstruction)
    );
    assert_eq!(
        decode_entry(0x809F_B000, 0x1_0000, &[], 0),
        Err(Error::UnsupportedInstruction)
    );
}

#[test]
fn executing_a_releasing_recipe_never_lowers_the_stack_pointer() {
    let env = SnapshotEnv { words: vec![(0x1000, 7), (0x1004, 0x9000)], binary: None };
    let recipes: &[&[UnwindOperation]] = &[
        &[UnwindOperation::AddToVsp(16), UnwindOperation::Finish],
        &[UnwindOperation::PopRegsUnderMask(0x4010), UnwindOperation::Finish],
        &[UnwindOperation::PopFloatRegs(8, 3), UnwindOperation::Finish],
    ];
    for recipe in recipes {
        let mut regs = Regs::new();
        regs.set(dwarf::R13, 0x1000);
        regs.set(dwarf::R14, 0x9000);
        let old_sp = regs.get(dwarf::R13).unwrap();
        let result = execute(recipe, &env, &mut regs);
        assert!(result.is_ok());
        assert!(regs.get(dwarf::R13).unwrap() >= old_sp);
    }
}

#[test]
fn pop_float_registers_skip_eight_bytes_each() {
    let env = SnapshotEnv { words: Vec::new(), binary: None };
    let mut regs = Regs::new();
    regs.set(dwarf::R13, 0x1000);
    regs.set(dwarf::R14, 0x9000);
    let result = execute(
        &[UnwindOperation::PopFloatRegs(8, 2), UnwindOperation::Finish],
        &env,
        &mut regs,
    );
    assert_eq!(result, Ok(None));
    assert_eq!(regs.get(dwarf::R13), Some(0x1010));
    assert_eq!(regs.get(dwarf::R15), Some(0x9000));
}

#[test]
fn set_vsp_overwrites_the_stack_pointer() {
    let env = SnapshotEnv { words: Vec::new(), binary: None };
    let mut regs = Regs::new();
    regs.set(dwarf::R13, 0x1000);
    regs.set(dwarf::R14, 0x9000);
    let result = execute(
        &[UnwindOperation::SetVsp(0x400), UnwindOperation::Finish],
        &env,
        &mut regs,
    );
    assert_eq!(result, Ok(None));
    assert_eq!(regs.get(dwarf::R13), Some(0x400));
}

#[test]
fn reading_through_an_unknown_stack_pointer_fails() {
    let env = SnapshotEnv { words: Vec::new(), binary: None };
    let mut regs = Regs::new();
    regs.set(dwarf::R14, 0x9000);
    let result = execute(
        &[UnwindOperation::PopRegsUnderMask(0x0010), UnwindOperation::Finish],
        &env,
        &mut regs,
    );
    assert_eq!(result, Err(Error::TruncatedStack));
}

#[test]
fn popping_the_program_counter_skips_the_link_register_copy() {
    let env = SnapshotEnv { words: vec![(0x1000, 0x7777_0000)], binary: None };
    let mut regs = Regs::new();
    regs.set(dwarf::R13, 0x1000);
    regs.set(dwarf::R14, 0x9000);
    let result = execute(
        &[UnwindOperation::PopRegsUnderMask(0x8000), UnwindOperation::Finish],
        &env,
        &mut regs,
    );
    assert_eq!(result, Ok(Some(0x1000)));
    assert_eq!(regs.get(dwarf::R15), Some(0x7777_0000));
    assert_eq!(regs.get(dwarf::R14), Some(0x9000));
}

#[test]
fn uleb_extended_stack_adjustment() {
    // bytes B2 08 B0: vsp += 0x204 + (8 << 2) = 0x224
    let env = SnapshotEnv { words: Vec::new(), binary: None };
    let recipe = decode_entry(0x80B2_08B0, 0x1_0000, &[], 0).unwrap();
    assert_eq!(
        recipe,
        vec![UnwindOperation::AddToVsp(0x224), UnwindOperation::Finish]
    );
    let mut regs = Regs::new();
    regs.set(dwarf::R13, 0x1000);
    regs.set(dwarf::R14, 0x9000);
    let result = execute(&recipe, &env, &mut regs);
    assert_eq!(result, Ok(None));
    assert_eq!(regs.get(dwarf::R13), Some(0x1224));
}

#[test]
fn pop_low_registers_under_nibble_mask() {
    // bytes B1 05 B0: pop {r0, r2}, finish
    let env = SnapshotEnv { words: vec![(0x1000, 11), (0x1004, 22)], binary: None };
    let recipe = decode_entry(0x80B1_05B0, 0x1_0000, &[], 0).unwrap();
    let mut regs = Regs::new();
    regs.set(dwarf::R13, 0x1000);
    regs.set(dwarf::R14, 0x9000);
    let result = execute(&recipe, &env, &mut regs);
    assert_eq!(result, Ok(None));
    assert_eq!(regs.get(dwarf::R0), Some(11));
    assert_eq!(regs.get(dwarf::R2), Some(22));
    assert_eq!(regs.get(dwarf::R13), Some(0x1008));
}
