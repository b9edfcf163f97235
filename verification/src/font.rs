//! The built-in hexadecimal font table.
//!
//! Sixteen glyphs (digits 0 through F), five bytes each; every byte is one
//! 8-pixel row of the glyph, most significant bit leftmost. The table is
//! copied into the low memory region at initialization, so the glyph for
//! digit `d` starts at address `d * 5`.

use vstd::prelude::*;

verus! {

/// Number of bytes in the font table: 16 glyphs of 5 bytes each.
pub const FONTSET_SIZE: usize = 80;

/// The glyph bitmaps, one row per byte.
pub const FONTSET: [u8; 80] = [
    0xF0, 0x90, 0x90, 0x90, 0xF0, // 0
    0x20, 0x60, 0x20, 0x20, 0x70, // 1
    0xF0, 0x10, 0xF0, 0x80, 0xF0, // 2
    0xF0, 0x10, 0xF0, 0x10, 0xF0, // 3
    0x90, 0x90, 0xF0, 0x10, 0x10, // 4
    0xF0, 0x80, 0xF0, 0x10, 0xF0, // 5
    0xF0, 0x80, 0xF0, 0x90, 0xF0, // 6
    0xF0, 0x10, 0x20, 0x40, 0x40, // 7
    0xF0, 0x90, 0xF0, 0x90, 0xF0, // 8
    0xF0, 0x90, 0xF0, 0x10, 0xF0, // 9
    0xF0, 0x90, 0xF0, 0x90, 0x90, // A
    0xE0, 0x90, 0xE0, 0x90, 0xE0, // B
    0xF0, 0x80, 0x80, 0x80, 0xF0, // C
    0xE0, 0x90, 0x90, 0x90, 0xE0, // D
    0xF0, 0x80, 0xF0, 0x80, 0xF0, // E
    0xF0, 0x80, 0xF0, 0x80, 0x80, // F
];

/// The font table as a sequence of bytes.
pub open spec fn font_seq() -> Seq<u8> {
    FONTSET@
}

} // verus!
