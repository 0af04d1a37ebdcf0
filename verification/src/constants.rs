//! Fixed parameters of the machine.

use vstd::prelude::*;

verus! {

/// Number of addressable bytes.
pub const MEMORY_SIZE: usize = 4096;

/// Address at which a loaded program starts, and the initial program counter.
pub const PROGRAM_START_ADDRESS: u16 = 0x200;

/// Address of the first glyph byte.
pub const FONT_DATA_START_ADDRESS: u16 = 0x50;

/// Bytes per glyph sprite.
pub const GLYPH_HEIGHT: u16 = 5;

/// Total size of the glyph table.
pub const FONT_SET_SIZE: usize = 80;

/// Display width in pixels.
pub const ORIGINAL_WIDTH: usize = 64;

/// Display height in pixels.
pub const ORIGINAL_HEIGHT: usize = 32;

/// Width of every sprite, in pixels: one byte per row.
pub const SPRITE_WIDTH: usize = 8;

/// Number of general-purpose registers; the last one is the flag register.
pub const REGISTER_COUNT: usize = 16;

/// Index of the flag register.
pub const FLAG_REGISTER: usize = 0xF;

/// Number of logical keys.
pub const KEY_COUNT: usize = 16;

/// Deepest nesting of subroutine calls that the processor accepts.
pub const STACK_CAPACITY: usize = 16;

/// Sprites of the hexadecimal digits `0` to `F`, five rows each.
pub const FONT_SET: [u8; 80] = [
    0xF0, 0x90, 0x90, 0x90, 0xF0,
    0x20, 0x60, 0x20, 0x20, 0x70,
    0xF0, 0x10, 0xF0, 0x80, 0xF0,
    0xF0, 0x10, 0xF0, 0x10, 0xF0,
    0x90, 0x90, 0xF0, 0x10, 0x10,
    0xF0, 0x80, 0xF0, 0x10, 0xF0,
    0xF0, 0x80, 0xF0, 0x90, 0xF0,
    0xF0, 0x10, 0x20, 0x40, 0x40,
    0xF0, 0x90, 0xF0, 0x90, 0xF0,
    0xF0, 0x90, 0xF0, 0x10, 0xF0,
    0xF0, 0x90, 0xF0, 0x90, 0x90,
    0xE0, 0x90, 0xE0, 0x90, 0xE0,
    0xF0, 0x80, 0x80, 0x80, 0xF0,
    0xE0, 0x90, 0x90, 0x90, 0xE0,
    0xF0, 0x80, 0xF0, 0x80, 0xF0,
    0xF0, 0x80, 0xF0, 0x80, 0x80,
];

/// The logical key of each physical key, as pairs of the logical code and the
/// key's USB HID usage number (the numbering of SDL scancodes). The rows of
/// the host keyboard `1234`, `QWER`, `ASDF`, `ZXCV` stand for the rows
/// `123C`, `456D`, `789E`, `A0BF` of the hexadecimal keypad.
pub const VALUE_KEY_MAP: [(u8, i32); 16] = [
    (0x1, 30),
    (0x2, 31),
    (0x3, 32),
    (0xC, 33),
    (0x4, 20),
    (0x5, 26),
    (0x6, 8),
    (0xD, 21),
    (0x7, 4),
    (0x8, 22),
    (0x9, 7),
    (0xE, 9),
    (0xA, 29),
    (0x0, 27),
    (0xB, 6),
    (0xF, 25),
];

} // verus!
