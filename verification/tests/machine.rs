//! Lifecycle, loading, keypad and timer behavior.

use chip8_core::{Emu, EmuError};

/// Big-endian encoding of a sequence of 16-bit instruction words.
fn words(ops: &[u16]) -> Vec<u8> {
    let mut bytes = Vec::new();
    for op in ops {
        bytes.push((op >> 8) as u8);
        bytes.push((op & 0xFF) as u8);
    }
    bytes
}

#[test]
fn new_starts_in_initial_state() {
    let emu = Emu::new();
    assert_eq!(emu.pc, 0x200);
    assert_eq!(emu.i_reg, 0);
    assert_eq!(emu.sp, 0);
    assert_eq!(emu.dt, 0);
    assert_eq!(emu.st, 0);
    assert_eq!(emu.ram.len(), 4096);
    // Font table in the low region: glyph 0 starts with 0xF0, glyph F ends with 0x80.
    assert_eq!(emu.ram[0], 0xF0);
    assert_eq!(emu.ram[79], 0x80);
    // Everything after the font table is zero.
    assert!(emu.ram[80..].iter().all(|&b| b == 0));
    assert_eq!(emu.screen.len(), 64 * 32);
    assert!(emu.get_display().iter().all(|&p| !p));
    assert!(emu.v_reg.iter().all(|&v| v == 0));
    assert!(emu.stack.iter().all(|&a| a == 0));
    assert!(emu.keys.iter().all(|&k| !k));
}

#[test]
fn load_copies_rom_at_start_address() {
    let mut emu = Emu::new();
    let rom = vec![0xDE, 0xAD, 0xBE, 0xEF];
    assert_eq!(emu.load(&rom), Ok(()));
    assert_eq!(&emu.ram[0x200..0x204], &[0xDE, 0xAD, 0xBE, 0xEF]);
    assert_eq!(emu.ram[0x204], 0);
}

#[test]
fn load_accepts_largest_rom() {
    let mut emu = Emu::new();
    let rom = vec![0xAB; 3584];
    assert_eq!(emu.load(&rom), Ok(()));
    assert_eq!(emu.ram[0xFFF], 0xAB);
}

#[test]
fn load_rejects_oversized_rom() {
    let mut emu = Emu::new();
    let rom = vec![0xAB; 3585];
    assert_eq!(emu.load(&rom), Err(EmuError::OversizedRom));
    // The failed load changed nothing.
    assert_eq!(emu, Emu::new());
}

#[test]
fn reset_then_load_matches_fresh_then_load() {
    let rom = words(&[0x6005, 0x6103, 0x8014, 0x1200]);

    let mut fresh = Emu::new();
    fresh.load(&rom).unwrap();

    let mut reused = Emu::new();
    reused.load(&words(&[0x60FF, 0xA300, 0xF033])).unwrap();
    for _ in 0..3 {
        reused.tick().unwrap();
    }
    reused.keypress(4, true);
    reused.dt = 17;
    reused.reset();
    reused.load(&rom).unwrap();

    assert_eq!(fresh, reused);
}

#[test]
fn keypress_sets_and_clears_keys() {
    let mut emu = Emu::new();
    emu.keypress(0xA, true);
    assert!(emu.keys[0xA]);
    emu.keypress(0xA, false);
    assert!(!emu.keys[0xA]);
}

#[test]
fn timers_count_down_and_floor_at_zero() {
    let mut emu = Emu::new();
    emu.dt = 2;
    emu.st = 0;
    assert!(!emu.tick_timers());
    assert_eq!(emu.dt, 1);
    assert!(!emu.tick_timers());
    assert_eq!(emu.dt, 0);
    assert!(!emu.tick_timers());
    assert_eq!(emu.dt, 0);
}

#[test]
fn sound_timer_signals_tone_end_once() {
    let mut emu = Emu::new();
    emu.st = 2;
    assert!(!emu.tick_timers());
    assert_eq!(emu.st, 1);
    // The 1 -> 0 transition is the tone-end signal.
    assert!(emu.tick_timers());
    assert_eq!(emu.st, 0);
    assert!(!emu.tick_timers());
}
