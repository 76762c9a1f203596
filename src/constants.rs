use vstd::prelude::*;

verus! {

/// Bytes of addressable memory.
pub const RAM_SIZE: usize = 4096;

/// Width of the framebuffer, in pixels.
pub const SCREEN_WIDTH: usize = 64;

/// Height of the framebuffer, in pixels.
pub const SCREEN_HEIGHT: usize = 32;

/// Number of pixels in the framebuffer.
pub const SCREEN_SIZE: usize = 2048;

/// Number of general registers `V0`..`VF`.
pub const NUM_REGS: usize = 16;

/// Depth of the call stack.
pub const STACK_SIZE: usize = 16;

/// Number of keys on the keypad.
pub const NUM_KEYS: usize = 16;

/// Address at which a program is loaded and execution begins.
pub const START_ADDR: u16 = 0x200;

/// Largest program that fits between `START_ADDR` and the end of memory.
pub const MAX_ROM_SIZE: usize = 3584;

/// Bytes taken by the font set at the bottom of memory.
pub const FONT_SIZE: usize = 80;

/// Sixteen 5-byte glyphs for the hexadecimal digits `0`..`F`; digit `d` starts at `5 * d`.
pub const FONTSET: [u8; FONT_SIZE] = [
    0xF0, 0x90, 0x90, 0x90, 0xF0,  // 0
    0x20, 0x60, 0x20, 0x20, 0x70,  // 1
    0xF0, 0x10, 0xF0, 0x80, 0xF0,  // 2
    0xF0, 0x10, 0xF0, 0x10, 0xF0,  // 3
    0x90, 0x90, 0xF0, 0x10, 0x10,  // 4
    0xF0, 0x80, 0xF0, 0x10, 0xF0,  // 5
    0xF0, 0x80, 0xF0, 0x90, 0xF0,  // 6
    0xF0, 0x10, 0x20, 0x40, 0x40,  // 7
    0xF0, 0x90, 0xF0, 0x90, 0xF0,  // 8
    0xF0, 0x90, 0xF0, 0x10, 0xF0,  // 9
    0xF0, 0x90, 0xF0, 0x90, 0x90,  // A
    0xE0, 0x90, 0xE0, 0x90, 0xE0,  // B
    0xF0, 0x80, 0x80, 0x80, 0xF0,  // C
    0xE0, 0x90, 0x90, 0x90, 0xE0,  // D
    0xF0, 0x80, 0xF0, 0x80, 0xF0,  // E
    0xF0, 0x80, 0xF0, 0x80, 0x80,  // F
];

} // verus!
