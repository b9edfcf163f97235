//! Instruction semantics, driven through `load` and `tick` / `tick_with`.

use chip8_core::{decode, Emu, EmuError, Instr};

/// Big-endian encoding of a sequence of 16-bit instruction words.
fn words(ops: &[u16]) -> Vec<u8> {
    let mut bytes = Vec::new();
    for op in ops {
        bytes.push((op >> 8) as u8);
        bytes.push((op & 0xFF) as u8);
    }
    bytes
}

/// A machine with the given instruction words loaded and `n` steps run.
fn run(ops: &[u16], n: usize) -> Emu {
    let mut emu = Emu::new();
    emu.load(&words(ops)).unwrap();
    for _ in 0..n {
        emu.tick().unwrap();
    }
    emu
}

#[test]
fn decode_recognizes_patterns() {
    assert_eq!(decode(0x00E0), Some(Instr::ClearScreen));
    assert_eq!(decode(0x00EE), Some(Instr::Ret));
    assert_eq!(decode(0x1ABC), Some(Instr::Jump(0xABC)));
    assert_eq!(decode(0x8124), Some(Instr::AddReg(1, 2)));
    assert_eq!(decode(0xD483), Some(Instr::Draw(4, 8, 3)));
    assert_eq!(decode(0xF30A), Some(Instr::WaitKey(3)));
    assert_eq!(decode(0xFFFF), None);
    assert_eq!(decode(0x5121), None);
    assert_eq!(decode(0xE19F), None);
}

#[test]
fn add_overflow_wraps_and_sets_carry() {
    // VX = 0xFF, VY = 0x01, add: VX = 0x00, VF = 1.
    let emu = run(&[0x60FF, 0x6101, 0x8014], 3);
    assert_eq!(emu.v_reg[0], 0x00);
    assert_eq!(emu.v_reg[0xF], 1);
}

#[test]
fn add_without_overflow_clears_carry() {
    let emu = run(&[0x6020, 0x6115, 0x8014], 3);
    assert_eq!(emu.v_reg[0], 0x35);
    assert_eq!(emu.v_reg[0xF], 0);
}

#[test]
fn sub_with_borrow_wraps_and_clears_flag() {
    // VX = 0x01, VY = 0x02, subtract VX - VY: VX = 0xFF, VF = 0.
    let emu = run(&[0x6001, 0x6102, 0x8015], 3);
    assert_eq!(emu.v_reg[0], 0xFF);
    assert_eq!(emu.v_reg[0xF], 0);
}

#[test]
fn sub_without_borrow_sets_flag() {
    let emu = run(&[0x6005, 0x6103, 0x8015], 3);
    assert_eq!(emu.v_reg[0], 0x02);
    assert_eq!(emu.v_reg[0xF], 1);
}

#[test]
fn reverse_sub_uses_opposite_operands() {
    // VX = VY - VX with VY = 7, VX = 9: VX = 0xFE, VF = 0 (borrow).
    let emu = run(&[0x6009, 0x6107, 0x8017], 3);
    assert_eq!(emu.v_reg[0], 0xFE);
    assert_eq!(emu.v_reg[0xF], 0);
}

#[test]
fn shift_left_reports_high_bit() {
    // VX = 0b1000_0001, left shift: VX = 0b0000_0010, VF = 1.
    let emu = run(&[0x6081, 0x800E], 2);
    assert_eq!(emu.v_reg[0], 0b0000_0010);
    assert_eq!(emu.v_reg[0xF], 1);
}

#[test]
fn shift_right_reports_low_bit() {
    // VX = 0b1000_0001, right shift: VX = 0b0100_0000, VF = 1.
    let emu = run(&[0x6081, 0x8006], 2);
    assert_eq!(emu.v_reg[0], 0b0100_0000);
    assert_eq!(emu.v_reg[0xF], 1);
}

#[test]
fn bitwise_ops_combine_registers() {
    let or = run(&[0x60F0, 0x610F, 0x8011], 3);
    assert_eq!(or.v_reg[0], 0xFF);
    let and = run(&[0x60CC, 0x61AA, 0x8012], 3);
    assert_eq!(and.v_reg[0], 0x88);
    let xor = run(&[0x60CC, 0x61AA, 0x8013], 3);
    assert_eq!(xor.v_reg[0], 0x66);
}

#[test]
fn add_imm_wraps_without_flag() {
    let emu = run(&[0x60FF, 0x7002], 2);
    assert_eq!(emu.v_reg[0], 0x01);
    assert_eq!(emu.v_reg[0xF], 0);
}

#[test]
fn copy_reg_overwrites_destination() {
    let emu = run(&[0x612A, 0x8010], 2);
    assert_eq!(emu.v_reg[0], 0x2A);
    assert_eq!(emu.v_reg[1], 0x2A);
}

#[test]
fn jump_moves_program_counter() {
    let emu = run(&[0x1ABC], 1);
    assert_eq!(emu.pc, 0xABC);
}

#[test]
fn jump_v0_adds_offset() {
    let emu = run(&[0x6010, 0xB300], 2);
    assert_eq!(emu.pc, 0x310);
}

#[test]
fn call_and_return_use_the_stack() {
    // Call 0x206; there, load V0 and return; after the return the next
    // instruction at 0x204 runs.
    let mut emu = Emu::new();
    emu.load(&words(&[0x2206, 0x6107, 0x0000, 0x6055, 0x00EE])).unwrap();
    emu.tick().unwrap();
    assert_eq!(emu.pc, 0x206);
    assert_eq!(emu.sp, 1);
    assert_eq!(emu.stack[0], 0x202);
    emu.tick().unwrap();
    assert_eq!(emu.v_reg[0], 0x55);
    emu.tick().unwrap();
    assert_eq!(emu.pc, 0x202);
    assert_eq!(emu.sp, 0);
    emu.tick().unwrap();
    assert_eq!(emu.v_reg[1], 0x07);
}

#[test]
fn skips_compare_register_and_immediate() {
    // V0 = 5; skip-if-equal 5 skips the load of V1.
    let emu = run(&[0x6005, 0x3005, 0x61FF, 0x6202], 3);
    assert_eq!(emu.v_reg[1], 0);
    assert_eq!(emu.v_reg[2], 2);
    // Skip-if-not-equal with an equal value does not skip.
    let emu = run(&[0x6005, 0x4005, 0x61FF], 3);
    assert_eq!(emu.v_reg[1], 0xFF);
}

#[test]
fn skips_compare_two_registers() {
    let emu = run(&[0x6007, 0x6107, 0x5010, 0x62FF, 0x6301], 4);
    assert_eq!(emu.v_reg[2], 0);
    assert_eq!(emu.v_reg[3], 1);
    let emu = run(&[0x6007, 0x6108, 0x9010, 0x62FF, 0x6301], 4);
    assert_eq!(emu.v_reg[2], 0);
    assert_eq!(emu.v_reg[3], 1);
}

#[test]
fn set_index_and_add_index() {
    let emu = run(&[0xA123, 0x6005, 0xF01E], 3);
    assert_eq!(emu.i_reg, 0x128);
}

#[test]
fn add_index_wraps_at_sixteen_bits() {
    let mut emu = Emu::new();
    emu.load(&words(&[0x60FF, 0xF01E])).unwrap();
    emu.i_reg = 0xFFFF;
    emu.tick().unwrap();
    emu.tick().unwrap();
    assert_eq!(emu.i_reg, 0x00FE);
}

#[test]
fn font_addr_is_five_times_digit() {
    let emu = run(&[0x600A, 0xF029], 2);
    assert_eq!(emu.i_reg, 50);
    // The glyph for 'A' starts with row byte 0xF0.
    assert_eq!(emu.ram[50], 0xF0);
}

#[test]
fn bcd_expands_decimal_digits() {
    // VX = 156: memory at I, I+1, I+2 becomes 1, 5, 6.
    let emu = run(&[0x609C, 0xA300, 0xF033], 3);
    assert_eq!(emu.ram[0x300], 1);
    assert_eq!(emu.ram[0x301], 5);
    assert_eq!(emu.ram[0x302], 6);
}

#[test]
fn store_and_load_register_blocks() {
    let emu = run(&[0x6011, 0x6122, 0x6233, 0xA300, 0xF255], 5);
    assert_eq!(&emu.ram[0x300..0x303], &[0x11, 0x22, 0x33]);
    // Registers past VX are not stored.
    assert_eq!(emu.ram[0x303], 0);

    let mut emu = run(&[0xA300, 0xF165], 0);
    emu.ram[0x300] = 0xAA;
    emu.ram[0x301] = 0xBB;
    emu.ram[0x302] = 0xCC;
    emu.tick().unwrap();
    emu.tick().unwrap();
    assert_eq!(emu.v_reg[0], 0xAA);
    assert_eq!(emu.v_reg[1], 0xBB);
    // Registers past VX are not loaded.
    assert_eq!(emu.v_reg[2], 0);
}

#[test]
fn delay_timer_reads_and_writes() {
    let emu = run(&[0x6030, 0xF015, 0xF107], 3);
    assert_eq!(emu.dt, 0x30);
    assert_eq!(emu.v_reg[1], 0x30);
}

#[test]
fn sound_timer_writes() {
    let emu = run(&[0x6042, 0xF018], 2);
    assert_eq!(emu.st, 0x42);
}

#[test]
fn random_mask_zero_forces_zero() {
    // Whatever byte the generator yields, AND with 0x00 is 0.
    let mut emu = Emu::new();
    emu.load(&words(&[0x6077, 0xC000])).unwrap();
    emu.tick().unwrap();
    emu.tick().unwrap();
    assert_eq!(emu.v_reg[0], 0);
}

#[test]
fn random_mask_applies_to_injected_byte() {
    let mut emu = Emu::new();
    emu.load(&words(&[0xC1AF])).unwrap();
    emu.tick_with(0x5C).unwrap();
    assert_eq!(emu.v_reg[1], 0x5C & 0xAF);
}

#[test]
fn wait_key_retries_until_a_key_appears() {
    let mut emu = Emu::new();
    emu.load(&words(&[0xF10A, 0x6209])).unwrap();
    let before = emu.v_reg.clone();
    // With no key pressed the program counter makes no net move and the
    // registers stay put.
    for _ in 0..3 {
        emu.tick().unwrap();
        assert_eq!(emu.pc, 0x200);
        assert_eq!(emu.v_reg, before);
    }
    // Once a key is pressed its index lands in the register and execution
    // proceeds normally.
    emu.keypress(0x7, true);
    emu.tick().unwrap();
    assert_eq!(emu.pc, 0x202);
    assert_eq!(emu.v_reg[1], 0x7);
    emu.tick().unwrap();
    assert_eq!(emu.v_reg[2], 0x9);
}

#[test]
fn wait_key_picks_lowest_pressed_index() {
    let mut emu = Emu::new();
    emu.load(&words(&[0xF00A])).unwrap();
    emu.keypress(0xC, true);
    emu.keypress(0x3, true);
    emu.tick().unwrap();
    assert_eq!(emu.v_reg[0], 0x3);
}

#[test]
fn skip_if_key_pressed() {
    let mut emu = Emu::new();
    emu.load(&words(&[0x6004, 0xE09E, 0x61FF, 0x6201])).unwrap();
    emu.keypress(4, true);
    for _ in 0..3 {
        emu.tick().unwrap();
    }
    assert_eq!(emu.v_reg[1], 0);
    assert_eq!(emu.v_reg[2], 1);
}

#[test]
fn skip_if_key_not_pressed() {
    let emu = run(&[0x6004, 0xE0A1, 0x61FF, 0x6201], 3);
    assert_eq!(emu.v_reg[1], 0);
    assert_eq!(emu.v_reg[2], 1);
}

#[test]
fn invalid_instruction_reports_op_and_pc() {
    let mut emu = Emu::new();
    emu.load(&[0xFF, 0xFF]).unwrap();
    let before = emu.clone();
    assert_eq!(emu.tick(), Err(EmuError::InvalidInstruction { op: 0xFFFF, pc: 0x200 }));
    // A failed step leaves the machine unchanged.
    assert_eq!(emu.pc, 0x200);
    assert_eq!(before, emu);
}

#[test]
fn fetch_past_memory_end_fails() {
    let mut emu = Emu::new();
    emu.pc = 4095;
    assert_eq!(emu.tick(), Err(EmuError::AddressOutOfRange));
    assert_eq!(emu.pc, 4095);
}

#[test]
fn bcd_past_memory_end_fails() {
    let mut emu = Emu::new();
    emu.load(&words(&[0xF033])).unwrap();
    emu.i_reg = 4094;
    assert_eq!(emu.tick(), Err(EmuError::AddressOutOfRange));
    assert_eq!(emu.pc, 0x200);
}

#[test]
fn store_regs_past_memory_end_fails() {
    let mut emu = Emu::new();
    emu.load(&words(&[0xF555])).unwrap();
    emu.i_reg = 4092;
    assert_eq!(emu.tick(), Err(EmuError::AddressOutOfRange));
}

#[test]
fn key_skip_with_bad_register_value_fails() {
    let mut emu = Emu::new();
    emu.load(&words(&[0x6010, 0xE09E])).unwrap();
    emu.tick().unwrap();
    assert_eq!(emu.tick(), Err(EmuError::AddressOutOfRange));
}

#[test]
fn deep_call_chain_overflows_stack() {
    // The instruction at 0x200 calls 0x200 again: each step pushes one
    // return address until the seventeenth overflows.
    let mut emu = Emu::new();
    emu.load(&words(&[0x2200])).unwrap();
    for _ in 0..16 {
        emu.tick().unwrap();
    }
    assert_eq!(emu.sp, 16);
    assert_eq!(emu.tick(), Err(EmuError::StackOverflow));
    assert_eq!(emu.sp, 16);
    assert_eq!(emu.pc, 0x200);
}

#[test]
fn return_on_empty_stack_underflows() {
    let mut emu = Emu::new();
    emu.load(&words(&[0x00EE])).unwrap();
    assert_eq!(emu.tick(), Err(EmuError::StackUnderflow));
    assert_eq!(emu.pc, 0x200);
}

#[test]
fn nop_only_advances_program_counter() {
    let mut emu = Emu::new();
    emu.load(&words(&[0x0000])).unwrap();
    emu.tick().unwrap();
    assert_eq!(emu.pc, 0x202);
}
