use vstd::prelude::*;

use crate::constants::FONTSET;
use crate::instruction::{decoded, Instruction};

verus! {

/// The whole architectural state of the machine, as mathematical values.
pub struct EmuState {
    pub pc: u16,
    pub ram: Seq<u8>,
    pub screen: Seq<bool>,
    pub v: Seq<u8>,
    pub index: u16,
    pub stack: Seq<u16>,
    pub sp: u16,
    pub sound: u8,
    pub delay: u8,
    pub keys: Seq<bool>,
}

impl EmuState {
    /// Every array has its fixed size and the stack pointer is within the stack.
    pub open spec fn wf(self) -> bool {
        &&& self.ram.len() == 4096
        &&& self.screen.len() == 2048
        &&& self.v.len() == 16
        &&& self.stack.len() == 16
        &&& self.keys.len() == 16
        &&& self.sp <= 16
    }
}

/// The machine as it is built: font in memory, `PC` at the program start, all else zero.
pub open spec fn boot_state() -> EmuState {
    EmuState {
        pc: 0x200,
        ram: Seq::new(4096, |i: int| if i < 80 { FONTSET@[i] } else { 0u8 }),
        screen: Seq::new(2048, |i: int| false),
        v: Seq::new(16, |i: int| 0u8),
        index: 0,
        stack: Seq::new(16, |i: int| 0u16),
        sp: 0,
        sound: 0,
        delay: 0,
        keys: Seq::new(16, |i: int| false),
    }
}

/// Memory with `data` written from the program start on, the rest kept.
pub open spec fn loaded_ram(ram: Seq<u8>, data: Seq<u8>) -> Seq<u8> {
    Seq::new(
        ram.len(),
        |i: int| if 0x200 <= i < 0x200 + data.len() { data[i - 0x200] } else { ram[i] },
    )
}

/// The big-endian word made of the bytes at `a` and `a + 1`.
pub open spec fn word_at(ram: Seq<u8>, a: int) -> u16 {
    (ram[a] as int * 256 + ram[a + 1] as int) as u16
}

/// `PC` moved past one instruction.
pub open spec fn advanced(s: EmuState) -> EmuState {
    EmuState { pc: (s.pc + 2) as u16, ..s }
}

/// The next instruction is skipped when `cond` holds.
pub open spec fn skip_if(s: EmuState, cond: bool) -> EmuState {
    if cond {
        advanced(s)
    } else {
        s
    }
}

/// `val` pushed onto the call stack.
pub open spec fn pushed(s: EmuState, val: u16) -> EmuState {
    EmuState { stack: s.stack.update(s.sp as int, val), sp: (s.sp + 1) as u16, ..s }
}

/// The value on top of the call stack.
pub open spec fn stack_top(s: EmuState) -> u16 {
    s.stack[s.sp - 1]
}

/// The call stack with its top entry removed.
pub open spec fn popped(s: EmuState) -> EmuState {
    EmuState { sp: (s.sp - 1) as u16, ..s }
}

/// Register `x` set to `val`.
pub open spec fn set_reg(s: EmuState, x: int, val: u8) -> EmuState {
    EmuState { v: s.v.update(x, val), ..s }
}

/// Register `x` set to `val`, then the flag register `VF` set to `flag`.
pub open spec fn set_reg_flag(s: EmuState, x: int, val: u8, flag: u8) -> EmuState {
    set_reg(set_reg(s, x, val), 15, flag)
}

/// Whether column `c` of sprite row `r` is set; row `r` is the byte at `index + r`.
pub open spec fn sprite_bit(s: EmuState, r: int, c: int) -> bool {
    s.ram[s.index + r] & (0x80u8 >> (c as u8)) != 0
}

/// The pixel that column `c` of row `r` lands on, for a sprite at `(vx, vy)`,
/// wrapped around the screen edges.
pub open spec fn pixel_of(vx: int, vy: int, r: int, c: int) -> int {
    (vx + c) % 64 + 64 * ((vy + r) % 32)
}

/// Whether some set bit of an `n`-row sprite at `(vx, vy)` lands on pixel `p`.
pub open spec fn sprite_covers(s: EmuState, vx: int, vy: int, n: int, p: int) -> bool {
    exists|r: int, c: int|
        0 <= r < n && 0 <= c < 8 && #[trigger] sprite_bit(s, r, c) && pixel_of(vx, vy, r, c) == p
}

/// Whether some set bit of the sprite lands on a pixel that is already on.
pub open spec fn sprite_collides(s: EmuState, vx: int, vy: int, n: int) -> bool {
    exists|r: int, c: int|
        0 <= r < n && 0 <= c < 8 && #[trigger] sprite_bit(s, r, c) && s.screen[pixel_of(
            vx,
            vy,
            r,
            c,
        )]
}

/// The screen after an `n`-row sprite is drawn at `(vx, vy)`: covered pixels
/// turn on, the others keep their state.
pub open spec fn drawn_screen(s: EmuState, vx: int, vy: int, n: int) -> Seq<bool> {
    Seq::new(2048, |p: int| s.screen[p] || sprite_covers(s, vx, vy, n, p))
}

/// The state after drawing the `n`-row sprite at `(V[x], V[y])`; `VF` tells
/// whether it hit a pixel that was on.
pub open spec fn drawn(s: EmuState, x: int, y: int, n: int) -> EmuState {
    let vx = s.v[x] as int;
    let vy = s.v[y] as int;
    let hit: u8 = if sprite_collides(s, vx, vy, n) {
        1
    } else {
        0
    };
    EmuState { screen: drawn_screen(s, vx, vy, n), v: s.v.update(15, hit), ..s }
}

/// Whether `k` is the lowest key that is down.
pub open spec fn is_lowest_key(keys: Seq<bool>, k: int) -> bool {
    0 <= k < 16 && keys[k] && forall|j: int| 0 <= j < k ==> !#[trigger] keys[j]
}

/// Whether some key is down.
pub open spec fn any_key(keys: Seq<bool>) -> bool {
    exists|k: int| 0 <= k < 16 && #[trigger] keys[k]
}

/// The state after executing `ins`, with `PC` already past it; `rnd` is the
/// random byte that `Random` uses.
pub open spec fn executed(s: EmuState, ins: Instruction, rnd: u8) -> EmuState {
    match ins {
        Instruction::Nop => s,
        Instruction::ClearScreen => EmuState { screen: Seq::new(2048, |i: int| false), ..s },
        Instruction::Return => EmuState { pc: stack_top(s), ..popped(s) },
        Instruction::Jump { addr } => EmuState { pc: addr, ..s },
        Instruction::Call { addr } => EmuState { pc: addr, ..pushed(s, s.pc) },
        Instruction::SkipEqImm { x, nn } => skip_if(s, s.v[x as int] == nn),
        Instruction::SkipNeImm { x, nn } => skip_if(s, s.v[x as int] != nn),
        Instruction::SkipEqReg { x, y } => skip_if(s, s.v[x as int] == s.v[y as int]),
        Instruction::LoadImm { x, nn } => set_reg(s, x as int, nn),
        Instruction::AddImm { x, nn } => set_reg(s, x as int, ((s.v[x as int] + nn) % 256) as u8),
        Instruction::Move { x, y } => set_reg(s, x as int, s.v[y as int]),
        Instruction::Or { x, y } => set_reg(s, x as int, s.v[x as int] | s.v[y as int]),
        Instruction::AddReg { x, y } => {
            let sum = s.v[x as int] + s.v[y as int];
            set_reg_flag(s, x as int, (sum % 256) as u8, if sum > 255 { 1 } else { 0 })
        },
        Instruction::SubReg { x, y } => {
            let a = s.v[x as int];
            let b = s.v[y as int];
            set_reg_flag(s, x as int, ((a - b + 256) % 256) as u8, if a < b { 0 } else { 1 })
        },
        Instruction::ShiftRight { x } => {
            let a = s.v[x as int];
            set_reg_flag(s, x as int, a / 2, a % 2)
        },
        Instruction::SubReverse { x, y } => {
            let a = s.v[x as int];
            let b = s.v[y as int];
            set_reg_flag(s, x as int, ((b - a + 256) % 256) as u8, if b < a { 0 } else { 1 })
        },
        Instruction::ShiftLeft { x } => {
            let a = s.v[x as int];
            set_reg_flag(s, x as int, ((a * 2) % 256) as u8, a / 128)
        },
        Instruction::SkipNeReg { x, y } => skip_if(s, s.v[x as int] != s.v[y as int]),
        Instruction::LoadIndex { addr } => EmuState { index: addr, ..s },
        Instruction::JumpOffset { addr } => EmuState { pc: (s.v[0] + addr) as u16, ..s },
        Instruction::Random { x, nn } => set_reg(s, x as int, rnd & nn),
        Instruction::Draw { x, y, n } => drawn(s, x as int, y as int, n as int),
        Instruction::SkipKey { x } => skip_if(s, s.keys[s.v[x as int] as int]),
        Instruction::SkipNotKey { x } => skip_if(s, !s.keys[s.v[x as int] as int]),
        Instruction::LoadDelay { x } => set_reg(s, x as int, s.delay),
        Instruction::WaitKey { x } => {
            if any_key(s.keys) {
                set_reg(s, x as int, (choose|k: int| is_lowest_key(s.keys, k)) as u8)
            } else {
                advanced(s)
            }
        },
        Instruction::SetDelay { x } => EmuState { delay: s.v[x as int], ..s },
        Instruction::SetSound { x } => EmuState { sound: s.v[x as int], ..s },
        Instruction::AddIndex { x } => EmuState {
            index: ((s.index + s.v[x as int]) % 65536) as u16,
            ..s
        },
        Instruction::LoadFont { x } => EmuState { index: (s.v[x as int] * 5) as u16, ..s },
        Instruction::Unknown { .. } => s,
    }
}

/// Whether `ins` can run on `s`: the opcode is known, the stack neither
/// overflows nor underflows, every memory read is below 4096, a key index is
/// below 16 and `PC` does not leave 16 bits.
pub open spec fn runnable(s: EmuState, ins: Instruction) -> bool {
    match ins {
        Instruction::Return => s.sp > 0,
        Instruction::Call { .. } => s.sp < 16,
        Instruction::SkipEqImm { .. } | Instruction::SkipNeImm { .. } | Instruction::SkipEqReg {
            ..
        } | Instruction::SkipNeReg { .. } | Instruction::WaitKey { .. } => s.pc + 2 <= 0xFFFF,
        Instruction::SkipKey { x } | Instruction::SkipNotKey { x } => s.v[x as int] < 16 && s.pc
            + 2 <= 0xFFFF,
        Instruction::Draw { n, .. } => n == 0 || s.index + n <= 4096,
        Instruction::Unknown { .. } => false,
        _ => true,
    }
}

/// The opcode at `PC`.
pub open spec fn next_opcode(s: EmuState) -> u16 {
    word_at(s.ram, s.pc as int)
}

/// Whether one instruction cycle can run on `s`: both opcode bytes lie in
/// memory and the instruction can run once `PC` is past it.
pub open spec fn tick_runnable(s: EmuState) -> bool {
    s.pc + 1 < 4096 && runnable(advanced(s), decoded(next_opcode(s)))
}

/// The state after one instruction cycle: fetch, then execute.
pub open spec fn ticked(s: EmuState, rnd: u8) -> EmuState {
    executed(advanced(s), decoded(next_opcode(s)), rnd)
}

/// Both timers one step closer to zero, never below it.
pub open spec fn timers_ticked(s: EmuState) -> EmuState {
    EmuState {
        delay: if s.delay > 0 {
            (s.delay - 1) as u8
        } else {
            0
        },
        sound: if s.sound > 0 {
            (s.sound - 1) as u8
        } else {
            0
        },
        ..s
    }
}

} // verus!
