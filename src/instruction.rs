use vstd::prelude::*;

verus! {

/// One decoded CHIP-8 instruction. Register selectors `x` and `y` are below
/// 16, a sprite height `n` is below 16, an address `addr` is below `0x1000`.
#[derive(Clone, Copy, Debug, PartialEq, Eq, Structural)]
pub enum Instruction {
    /// `0000`: do nothing.
    Nop,
    /// `00E0`: turn every pixel off.
    ClearScreen,
    /// `00EE`: pop a return address into `PC`.
    Return,
    /// `1NNN`: `PC = NNN`.
    Jump { addr: u16 },
    /// `2NNN`: push `PC`, then `PC = NNN`.
    Call { addr: u16 },
    /// `3XNN`: skip the next instruction if `VX == NN`.
    SkipEqImm { x: usize, nn: u8 },
    /// `4XNN`: skip the next instruction if `VX != NN`.
    SkipNeImm { x: usize, nn: u8 },
    /// `5XY0`: skip the next instruction if `VX == VY`.
    SkipEqReg { x: usize, y: usize },
    /// `6XNN`: `VX = NN`.
    LoadImm { x: usize, nn: u8 },
    /// `7XNN`: `VX = VX + NN`, wrapping, flag untouched.
    AddImm { x: usize, nn: u8 },
    /// `8XY0`: `VX = VY`.
    Move { x: usize, y: usize },
    /// `8XY1`, `8XY2` and `8XY3`: `VX = VX | VY`. All three combine by OR.
    Or { x: usize, y: usize },
    /// `8XY4`: `VX = VX + VY`, wrapping; `VF` = carry.
    AddReg { x: usize, y: usize },
    /// `8XY5`: `VX = VX - VY`, wrapping; `VF` = 1 when no borrow.
    SubReg { x: usize, y: usize },
    /// `8XY6`: `VF` = low bit of `VX`, then `VX >>= 1`.
    ShiftRight { x: usize },
    /// `8XY7`: `VX = VY - VX`, wrapping; `VF` = 1 when no borrow.
    SubReverse { x: usize, y: usize },
    /// `8XYE`: `VF` = high bit of `VX`, then `VX <<= 1`.
    ShiftLeft { x: usize },
    /// `9XY0`: skip the next instruction if `VX != VY`.
    SkipNeReg { x: usize, y: usize },
    /// `ANNN`: index register `= NNN`.
    LoadIndex { addr: u16 },
    /// `BNNN`: `PC = V0 + NNN`.
    JumpOffset { addr: u16 },
    /// `CXNN`: `VX = random & NN`.
    Random { x: usize, nn: u8 },
    /// `DXYN`: draw an `N`-row sprite from the index register at `(VX, VY)`.
    Draw { x: usize, y: usize, n: usize },
    /// `EX9E`: skip the next instruction if key `VX` is down.
    SkipKey { x: usize },
    /// `EXA1`: skip the next instruction if key `VX` is up.
    SkipNotKey { x: usize },
    /// `FX07`: `VX = delay timer`.
    LoadDelay { x: usize },
    /// `FX0A`: `VX` = lowest key that is down; with none down, skip.
    WaitKey { x: usize },
    /// `FX15`: delay timer `= VX`.
    SetDelay { x: usize },
    /// `FX18`: sound timer `= VX`.
    SetSound { x: usize },
    /// `FX1E`: index register `+= VX`, wrapping.
    AddIndex { x: usize },
    /// `FX29`: index register `= 5 * VX`, the glyph of digit `VX`.
    LoadFont { x: usize },
    /// Any other opcode.
    Unknown { opcode: u16 },
}

impl Instruction {
    /// Register selectors and sprite heights are below 16, addresses below `0x1000`.
    pub open spec fn wf(self) -> bool {
        match self {
            Instruction::Jump { addr }
            | Instruction::Call { addr }
            | Instruction::LoadIndex { addr }
            | Instruction::JumpOffset { addr } => addr < 0x1000,
            Instruction::SkipEqImm { x, .. }
            | Instruction::SkipNeImm { x, .. }
            | Instruction::LoadImm { x, .. }
            | Instruction::AddImm { x, .. }
            | Instruction::Random { x, .. }
            | Instruction::ShiftRight { x }
            | Instruction::ShiftLeft { x }
            | Instruction::SkipKey { x }
            | Instruction::SkipNotKey { x }
            | Instruction::LoadDelay { x }
            | Instruction::WaitKey { x }
            | Instruction::SetDelay { x }
            | Instruction::SetSound { x }
            | Instruction::AddIndex { x }
            | Instruction::LoadFont { x } => x < 16,
            Instruction::SkipEqReg { x, y }
            | Instruction::Move { x, y }
            | Instruction::Or { x, y }
            | Instruction::AddReg { x, y }
            | Instruction::SubReg { x, y }
            | Instruction::SubReverse { x, y }
            | Instruction::SkipNeReg { x, y } => x < 16 && y < 16,
            Instruction::Draw { x, y, n } => x < 16 && y < 16 && n < 16,
            _ => true,
        }
    }

    /// Instructions that only steer control: the stack, jumps and skips.
    pub open spec fn is_control(self) -> bool {
        match self {
            Instruction::Nop
            | Instruction::ClearScreen
            | Instruction::Return
            | Instruction::Jump { .. }
            | Instruction::Call { .. }
            | Instruction::JumpOffset { .. }
            | Instruction::SkipEqImm { .. }
            | Instruction::SkipNeImm { .. }
            | Instruction::SkipEqReg { .. }
            | Instruction::SkipNeReg { .. }
            | Instruction::SkipKey { .. }
            | Instruction::SkipNotKey { .. } => true,
            _ => false,
        }
    }

    /// Instructions that compute a register value.
    pub open spec fn is_arith(self) -> bool {
        match self {
            Instruction::LoadImm { .. }
            | Instruction::AddImm { .. }
            | Instruction::Move { .. }
            | Instruction::Or { .. }
            | Instruction::AddReg { .. }
            | Instruction::SubReg { .. }
            | Instruction::ShiftRight { .. }
            | Instruction::SubReverse { .. }
            | Instruction::ShiftLeft { .. }
            | Instruction::Random { .. } => true,
            _ => false,
        }
    }
}

/// The four hexadecimal digits of an opcode, most significant first.
pub open spec fn digit(op: u16, k: int) -> int {
    if k == 1 {
        op as int / 4096
    } else if k == 2 {
        (op as int / 256) % 16
    } else if k == 3 {
        (op as int / 16) % 16
    } else {
        op as int % 16
    }
}

/// The low byte of an opcode.
pub open spec fn imm8(op: u16) -> u8 {
    (op as int % 256) as u8
}

/// The low twelve bits of an opcode.
pub open spec fn imm12(op: u16) -> u16 {
    (op as int % 4096) as u16
}

/// What the opcode `op` means.
pub open spec fn decoded(op: u16) -> Instruction {
    let d1 = digit(op, 1);
    let x = digit(op, 2) as usize;
    let y = digit(op, 3) as usize;
    let d3 = digit(op, 3);
    let d4 = digit(op, 4);
    let nn = imm8(op);
    let addr = imm12(op);
    if op == 0x0000 {
        Instruction::Nop
    } else if op == 0x00E0 {
        Instruction::ClearScreen
    } else if op == 0x00EE {
        Instruction::Return
    } else if d1 == 0x1 {
        Instruction::Jump { addr }
    } else if d1 == 0x2 {
        Instruction::Call { addr }
    } else if d1 == 0x3 {
        Instruction::SkipEqImm { x, nn }
    } else if d1 == 0x4 {
        Instruction::SkipNeImm { x, nn }
    } else if d1 == 0x5 && d4 == 0x0 {
        Instruction::SkipEqReg { x, y }
    } else if d1 == 0x6 {
        Instruction::LoadImm { x, nn }
    } else if d1 == 0x7 {
        Instruction::AddImm { x, nn }
    } else if d1 == 0x8 && d4 == 0x0 {
        Instruction::Move { x, y }
    } else if d1 == 0x8 && 0x1 <= d4 <= 0x3 {
        Instruction::Or { x, y }
    } else if d1 == 0x8 && d4 == 0x4 {
        Instruction::AddReg { x, y }
    } else if d1 == 0x8 && d4 == 0x5 {
        Instruction::SubReg { x, y }
    } else if d1 == 0x8 && d4 == 0x6 {
        Instruction::ShiftRight { x }
    } else if d1 == 0x8 && d4 == 0x7 {
        Instruction::SubReverse { x, y }
    } else if d1 == 0x8 && d4 == 0xE {
        Instruction::ShiftLeft { x }
    } else if d1 == 0x9 && d4 == 0x0 {
        Instruction::SkipNeReg { x, y }
    } else if d1 == 0xA {
        Instruction::LoadIndex { addr }
    } else if d1 == 0xB {
        Instruction::JumpOffset { addr }
    } else if d1 == 0xC {
        Instruction::Random { x, nn }
    } else if d1 == 0xD {
        Instruction::Draw { x, y, n: d4 as usize }
    } else if d1 == 0xE && d3 == 0x9 && d4 == 0xE {
        Instruction::SkipKey { x }
    } else if d1 == 0xE && d3 == 0xA && d4 == 0x1 {
        Instruction::SkipNotKey { x }
    } else if d1 == 0xF && d3 == 0x0 && d4 == 0x7 {
        Instruction::LoadDelay { x }
    } else if d1 == 0xF && d3 == 0x0 && d4 == 0xA {
        Instruction::WaitKey { x }
    } else if d1 == 0xF && d3 == 0x1 && d4 == 0x5 {
        Instruction::SetDelay { x }
    } else if d1 == 0xF && d3 == 0x1 && d4 == 0x8 {
        Instruction::SetSound { x }
    } else if d1 == 0xF && d3 == 0x1 && d4 == 0xE {
        Instruction::AddIndex { x }
    } else if d1 == 0xF && d3 == 0x2 && d4 == 0x9 {
        Instruction::LoadFont { x }
    } else {
        Instruction::Unknown { opcode: op }
    }
}

/// Splits `opcode` into its digits and immediates and names the instruction.
pub fn decode(opcode: u16) -> (r: Instruction)
    ensures
        r == decoded(opcode),
        r.wf(),
{
    let d1: u16 = (opcode & 0xF000) >> 12;
    let d2: u16 = (opcode & 0x0F00) >> 8;
    let d3: u16 = (opcode & 0x00F0) >> 4;
    let d4: u16 = opcode & 0x000F;
    let low: u16 = opcode & 0x00FF;
    let addr: u16 = opcode & 0x0FFF;
    assert((opcode & 0xF000) >> 12 == opcode / 4096) by (bit_vector);
    assert((opcode & 0x0F00) >> 8 == (opcode / 256) % 16) by (bit_vector);
    assert((opcode & 0x00F0) >> 4 == (opcode / 16) % 16) by (bit_vector);
    assert(opcode & 0x000F == opcode % 16) by (bit_vector);
    assert(opcode & 0x00FF == opcode % 256) by (bit_vector);
    assert(opcode & 0x0FFF == opcode % 4096) by (bit_vector);
    let nn: u8 = low as u8;
    let x = d2 as usize;
    let y = d3 as usize;
    if opcode == 0x0000 {
        Instruction::Nop
    } else if opcode == 0x00E0 {
        Instruction::ClearScreen
    } else if opcode == 0x00EE {
        Instruction::Return
    } else if d1 == 0x1 {
        Instruction::Jump { addr }
    } else if d1 == 0x2 {
        Instruction::Call { addr }
    } else if d1 == 0x3 {
        Instruction::SkipEqImm { x, nn }
    } else if d1 == 0x4 {
        Instruction::SkipNeImm { x, nn }
    } else if d1 == 0x5 && d4 == 0x0 {
        Instruction::SkipEqReg { x, y }
    } else if d1 == 0x6 {
        Instruction::LoadImm { x, nn }
    } else if d1 == 0x7 {
        Instruction::AddImm { x, nn }
    } else if d1 == 0x8 && d4 == 0x0 {
        Instruction::Move { x, y }
    } else if d1 == 0x8 && 0x1 <= d4 && d4 <= 0x3 {
        Instruction::Or { x, y }
    } else if d1 == 0x8 && d4 == 0x4 {
        Instruction::AddReg { x, y }
    } else if d1 == 0x8 && d4 == 0x5 {
        Instruction::SubReg { x, y }
    } else if d1 == 0x8 && d4 == 0x6 {
        Instruction::ShiftRight { x }
    } else if d1 == 0x8 && d4 == 0x7 {
        Instruction::SubReverse { x, y }
    } else if d1 == 0x8 && d4 == 0xE {
        Instruction::ShiftLeft { x }
    } else if d1 == 0x9 && d4 == 0x0 {
        Instruction::SkipNeReg { x, y }
    } else if d1 == 0xA {
        Instruction::LoadIndex { addr }
    } else if d1 == 0xB {
        Instruction::JumpOffset { addr }
    } else if d1 == 0xC {
        Instruction::Random { x, nn }
    } else if d1 == 0xD {
        Instruction::Draw { x, y, n: d4 as usize }
    } else if d1 == 0xE && d3 == 0x9 && d4 == 0xE {
        Instruction::SkipKey { x }
    } else if d1 == 0xE && d3 == 0xA && d4 == 0x1 {
        Instruction::SkipNotKey { x }
    } else if d1 == 0xF && d3 == 0x0 && d4 == 0x7 {
        Instruction::LoadDelay { x }
    } else if d1 == 0xF && d3 == 0x0 && d4 == 0xA {
        Instruction::WaitKey { x }
    } else if d1 == 0xF && d3 == 0x1 && d4 == 0x5 {
        Instruction::SetDelay { x }
    } else if d1 == 0xF && d3 == 0x1 && d4 == 0x8 {
        Instruction::SetSound { x }
    } else if d1 == 0xF && d3 == 0x1 && d4 == 0xE {
        Instruction::AddIndex { x }
    } else if d1 == 0xF && d3 == 0x2 && d4 == 0x9 {
        Instruction::LoadFont { x }
    } else {
        Instruction::Unknown { opcode }
    }
}

} // verus!
