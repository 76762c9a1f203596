//! An interpreter for the CHIP-8 virtual machine: memory, registers, call
//! stack, timers, keypad and framebuffer, with a verified
//! fetch-decode-execute cycle.

mod constants;

pub use constants::{
    FONTSET, FONT_SIZE, MAX_ROM_SIZE, NUM_KEYS, NUM_REGS, RAM_SIZE, SCREEN_HEIGHT, SCREEN_SIZE,
    SCREEN_WIDTH, STACK_SIZE, START_ADDR,
};

pub mod instruction;

pub use instruction::{decode, Instruction};

pub mod model;

pub use model::EmuState;

mod emulator;

pub use emulator::Emulator;

pub mod laws;

pub use laws::{
    lemma_clear_blanks_screen, lemma_redraw_collides, lemma_stack_bounds, lemma_stack_lifo,
    pushed_all,
};
