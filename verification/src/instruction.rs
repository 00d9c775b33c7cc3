//! The instruction set: what each 16-bit word means.
//!
//! A word is read as four nibbles. The highest one selects the family; the
//! others are operands: `x` (bits 8-11) and `y` (bits 4-7) name registers,
//! `n` (bits 0-3), `nn` (bits 0-7) and `nnn` (bits 0-11) are immediates.

use vstd::prelude::*;

verus! {

/// One decoded instruction with its operands.
#[derive(Clone, Copy, Debug, PartialEq, Eq, Structural)]
pub enum Instruction {
    /// `00E0`: clear the framebuffer.
    ClearScreen,
    /// `00EE`: return from a subroutine.
    Return,
    /// `1nnn`: jump to `addr`.
    Jump { addr: u16 },
    /// `2nnn`: call the subroutine at `addr`.
    Call { addr: u16 },
    /// `3xnn`: skip the next instruction if `v[x] == byte`.
    SkipEqualByte { x: usize, byte: u8 },
    /// `4xnn`: skip the next instruction if `v[x] != byte`.
    SkipNotEqualByte { x: usize, byte: u8 },
    /// `5xy0`: skip the next instruction if `v[x] == v[y]`.
    SkipEqual { x: usize, y: usize },
    /// `6xnn`: `v[x] = byte`.
    SetByte { x: usize, byte: u8 },
    /// `7xnn`: `v[x] += byte`, wrapping, no flag.
    AddByte { x: usize, byte: u8 },
    /// `8xy0`: `v[x] = v[y]`.
    Move { x: usize, y: usize },
    /// `8xy1`: `v[x] |= v[y]`, flag cleared.
    Or { x: usize, y: usize },
    /// `8xy2`: `v[x] &= v[y]`, flag cleared.
    And { x: usize, y: usize },
    /// `8xy3`: `v[x] ^= v[y]`, flag cleared.
    Xor { x: usize, y: usize },
    /// `8xy4`: `v[x] += v[y]`, flag set on carry.
    Add { x: usize, y: usize },
    /// `8xy5`: `v[x] -= v[y]`, flag cleared on borrow.
    Sub { x: usize, y: usize },
    /// `8xy6`: shift right by one, flag takes the bit shifted out.
    ShiftRight { x: usize, y: usize },
    /// `8xy7`: `v[x] = v[y] - v[x]`, flag cleared on borrow.
    SubFrom { x: usize, y: usize },
    /// `8xyE`: shift left by one, flag takes the bit shifted out.
    ShiftLeft { x: usize, y: usize },
    /// `9xy0`: skip the next instruction if `v[x] != v[y]`.
    SkipNotEqual { x: usize, y: usize },
    /// `Annn`: `i = addr`.
    SetIndex { addr: u16 },
    /// `Bnnn`: jump to `addr + v[0]`.
    JumpOffset { addr: u16 },
    /// `Cxnn`: `v[x] = random byte & mask`.
    Random { x: usize, mask: u8 },
    /// `Dxyn`: draw a sprite of `rows` rows at `(v[x], v[y])`.
    Draw { x: usize, y: usize, rows: usize },
    /// `Ex9E`: skip the next instruction if key `v[x]` is down.
    SkipKeyDown { x: usize },
    /// `ExA1`: skip the next instruction if key `v[x]` is up.
    SkipKeyUp { x: usize },
    /// `Fx07`: `v[x] = delay timer`.
    GetDelay { x: usize },
    /// `Fx0A`: wait for a key, then store its code in `v[x]`.
    WaitKey { x: usize },
    /// `Fx15`: `delay timer = v[x]`.
    SetDelay { x: usize },
    /// `Fx18`: `sound timer = v[x]`.
    SetSound { x: usize },
    /// `Fx1E`: `i += v[x]`.
    AddIndex { x: usize },
    /// `Fx29`: `i = address of the glyph for v[x]`.
    Glyph { x: usize },
    /// `Fx33`: store the three decimal digits of `v[x]` at `i`, `i+1`, `i+2`.
    StoreBcd { x: usize },
    /// `Fx55`: store `v[0..=x]` at `i`.
    StoreRegisters { x: usize },
    /// `Fx65`: load `v[0..=x]` from `i`.
    LoadRegisters { x: usize },
}

/// The family nibble of a word (bits 12-15).
pub open spec fn op_family(opcode: u16) -> int {
    opcode as int / 0x1000
}

/// The `x` operand of a word (bits 8-11).
pub open spec fn op_x(opcode: u16) -> int {
    (opcode as int / 0x100) % 0x10
}

/// The `y` operand of a word (bits 4-7).
pub open spec fn op_y(opcode: u16) -> int {
    (opcode as int / 0x10) % 0x10
}

/// The `n` operand of a word (bits 0-3).
pub open spec fn op_n(opcode: u16) -> int {
    opcode as int % 0x10
}

/// The `nn` operand of a word (bits 0-7).
pub open spec fn op_nn(opcode: u16) -> int {
    opcode as int % 0x100
}

/// The `nnn` operand of a word (bits 0-11).
pub open spec fn op_nnn(opcode: u16) -> int {
    opcode as int % 0x1000
}

/// The register-to-register family `8xyn`.
pub open spec fn spec_decode_alu(x: usize, y: usize, n: int) -> Option<Instruction> {
    if n == 0x0 {
        Some(Instruction::Move { x, y })
    } else if n == 0x1 {
        Some(Instruction::Or { x, y })
    } else if n == 0x2 {
        Some(Instruction::And { x, y })
    } else if n == 0x3 {
        Some(Instruction::Xor { x, y })
    } else if n == 0x4 {
        Some(Instruction::Add { x, y })
    } else if n == 0x5 {
        Some(Instruction::Sub { x, y })
    } else if n == 0x6 {
        Some(Instruction::ShiftRight { x, y })
    } else if n == 0x7 {
        Some(Instruction::SubFrom { x, y })
    } else if n == 0xE {
        Some(Instruction::ShiftLeft { x, y })
    } else {
        None
    }
}

/// The timer, keypad and memory family `Fxnn`.
pub open spec fn spec_decode_misc(x: usize, nn: int) -> Option<Instruction> {
    if nn == 0x07 {
        Some(Instruction::GetDelay { x })
    } else if nn == 0x0A {
        Some(Instruction::WaitKey { x })
    } else if nn == 0x15 {
        Some(Instruction::SetDelay { x })
    } else if nn == 0x18 {
        Some(Instruction::SetSound { x })
    } else if nn == 0x1E {
        Some(Instruction::AddIndex { x })
    } else if nn == 0x29 {
        Some(Instruction::Glyph { x })
    } else if nn == 0x33 {
        Some(Instruction::StoreBcd { x })
    } else if nn == 0x55 {
        Some(Instruction::StoreRegisters { x })
    } else if nn == 0x65 {
        Some(Instruction::LoadRegisters { x })
    } else {
        None
    }
}

/// The instruction that a word stands for, or `None` where the word matches
/// no pattern of the instruction set.
pub open spec fn spec_decode(opcode: u16) -> Option<Instruction> {
    let family = op_family(opcode);
    let x = op_x(opcode) as usize;
    let y = op_y(opcode) as usize;
    let n = op_n(opcode);
    let nn = op_nn(opcode);
    let byte = op_nn(opcode) as u8;
    let addr = op_nnn(opcode) as u16;
    if family == 0x0 {
        if addr == 0x0E0 {
            Some(Instruction::ClearScreen)
        } else if addr == 0x0EE {
            Some(Instruction::Return)
        } else {
            None
        }
    } else if family == 0x1 {
        Some(Instruction::Jump { addr })
    } else if family == 0x2 {
        Some(Instruction::Call { addr })
    } else if family == 0x3 {
        Some(Instruction::SkipEqualByte { x, byte })
    } else if family == 0x4 {
        Some(Instruction::SkipNotEqualByte { x, byte })
    } else if family == 0x5 {
        if n == 0 {
            Some(Instruction::SkipEqual { x, y })
        } else {
            None
        }
    } else if family == 0x6 {
        Some(Instruction::SetByte { x, byte })
    } else if family == 0x7 {
        Some(Instruction::AddByte { x, byte })
    } else if family == 0x8 {
        spec_decode_alu(x, y, n)
    } else if family == 0x9 {
        if n == 0 {
            Some(Instruction::SkipNotEqual { x, y })
        } else {
            None
        }
    } else if family == 0xA {
        Some(Instruction::SetIndex { addr })
    } else if family == 0xB {
        Some(Instruction::JumpOffset { addr })
    } else if family == 0xC {
        Some(Instruction::Random { x, mask: byte })
    } else if family == 0xD {
        Some(Instruction::Draw { x, y, rows: n as usize })
    } else if family == 0xE {
        if nn == 0x9E {
            Some(Instruction::SkipKeyDown { x })
        } else if nn == 0xA1 {
            Some(Instruction::SkipKeyUp { x })
        } else {
            None
        }
    } else {
        spec_decode_misc(x, nn)
    }
}

impl Instruction {
    /// Every register operand names one of the sixteen registers, every
    /// address has twelve bits, and a sprite has at most fifteen rows.
    pub open spec fn wf(self) -> bool {
        match self {
            Instruction::ClearScreen | Instruction::Return => true,
            Instruction::Jump { addr }
            | Instruction::Call { addr }
            | Instruction::SetIndex { addr }
            | Instruction::JumpOffset { addr } => addr < 0x1000,
            Instruction::SkipEqualByte { x, .. }
            | Instruction::SkipNotEqualByte { x, .. }
            | Instruction::SetByte { x, .. }
            | Instruction::AddByte { x, .. }
            | Instruction::Random { x, .. }
            | Instruction::SkipKeyDown { x }
            | Instruction::SkipKeyUp { x }
            | Instruction::GetDelay { x }
            | Instruction::WaitKey { x }
            | Instruction::SetDelay { x }
            | Instruction::SetSound { x }
            | Instruction::AddIndex { x }
            | Instruction::Glyph { x }
            | Instruction::StoreBcd { x }
            | Instruction::StoreRegisters { x }
            | Instruction::LoadRegisters { x } => x < 16,
            Instruction::SkipEqual { x, y }
            | Instruction::Move { x, y }
            | Instruction::Or { x, y }
            | Instruction::And { x, y }
            | Instruction::Xor { x, y }
            | Instruction::Add { x, y }
            | Instruction::Sub { x, y }
            | Instruction::ShiftRight { x, y }
            | Instruction::SubFrom { x, y }
            | Instruction::ShiftLeft { x, y }
            | Instruction::SkipNotEqual { x, y } => x < 16 && y < 16,
            Instruction::Draw { x, y, rows } => x < 16 && y < 16 && rows < 16,
        }
    }

    /// Whether the operands are in range: see [`Instruction::wf`].
    pub fn is_wf(&self) -> (ok: bool)
        ensures
            ok == self.wf(),
    {
        match *self {
            Instruction::ClearScreen | Instruction::Return => true,
            Instruction::Jump { addr }
            | Instruction::Call { addr }
            | Instruction::SetIndex { addr }
            | Instruction::JumpOffset { addr } => addr < 0x1000,
            Instruction::SkipEqualByte { x, .. }
            | Instruction::SkipNotEqualByte { x, .. }
            | Instruction::SetByte { x, .. }
            | Instruction::AddByte { x, .. }
            | Instruction::Random { x, .. }
            | Instruction::SkipKeyDown { x }
            | Instruction::SkipKeyUp { x }
            | Instruction::GetDelay { x }
            | Instruction::WaitKey { x }
            | Instruction::SetDelay { x }
            | Instruction::SetSound { x }
            | Instruction::AddIndex { x }
            | Instruction::Glyph { x }
            | Instruction::StoreBcd { x }
            | Instruction::StoreRegisters { x }
            | Instruction::LoadRegisters { x } => x < 16,
            Instruction::SkipEqual { x, y }
            | Instruction::Move { x, y }
            | Instruction::Or { x, y }
            | Instruction::And { x, y }
            | Instruction::Xor { x, y }
            | Instruction::Add { x, y }
            | Instruction::Sub { x, y }
            | Instruction::ShiftRight { x, y }
            | Instruction::SubFrom { x, y }
            | Instruction::ShiftLeft { x, y }
            | Instruction::SkipNotEqual { x, y } => x < 16 && y < 16,
            Instruction::Draw { x, y, rows } => x < 16 && y < 16 && rows < 16,
        }
    }
}

/// Every instruction that a word decodes to has its operands in range.
pub proof fn lemma_decoded_is_wf(opcode: u16)
    ensures
        spec_decode(opcode) matches Some(instr) ==> instr.wf(),
{
}

/// How the masks and shifts that split a word relate to its nibbles.
proof fn lemma_opcode_fields(opcode: u16)
    ensures
        (opcode & 0xF000) >> 12 == opcode / 0x1000,
        (opcode & 0x0F00) >> 8 == (opcode / 0x100) % 0x10,
        (opcode & 0x00F0) >> 4 == (opcode / 0x10) % 0x10,
        opcode & 0x000F == opcode % 0x10,
        opcode & 0x00FF == opcode % 0x100,
        opcode & 0x0FFF == opcode % 0x1000,
{
    assert((opcode & 0xF000) >> 12 == opcode / 0x1000) by (bit_vector);
    assert((opcode & 0x0F00) >> 8 == (opcode / 0x100) % 0x10) by (bit_vector);
    assert((opcode & 0x00F0) >> 4 == (opcode / 0x10) % 0x10) by (bit_vector);
    assert(opcode & 0x000F == opcode % 0x10) by (bit_vector);
    assert(opcode & 0x00FF == opcode % 0x100) by (bit_vector);
    assert(opcode & 0x0FFF == opcode % 0x1000) by (bit_vector);
}

fn decode_alu(x: usize, y: usize, n: u16) -> (instr: Option<Instruction>)
    ensures
        instr == spec_decode_alu(x, y, n as int),
{
    match n {
        0x0 => Some(Instruction::Move { x, y }),
        0x1 => Some(Instruction::Or { x, y }),
        0x2 => Some(Instruction::And { x, y }),
        0x3 => Some(Instruction::Xor { x, y }),
        0x4 => Some(Instruction::Add { x, y }),
        0x5 => Some(Instruction::Sub { x, y }),
        0x6 => Some(Instruction::ShiftRight { x, y }),
        0x7 => Some(Instruction::SubFrom { x, y }),
        0xE => Some(Instruction::ShiftLeft { x, y }),
        _ => None,
    }
}

fn decode_misc(x: usize, nn: u16) -> (instr: Option<Instruction>)
    ensures
        instr == spec_decode_misc(x, nn as int),
{
    match nn {
        0x07 => Some(Instruction::GetDelay { x }),
        0x0A => Some(Instruction::WaitKey { x }),
        0x15 => Some(Instruction::SetDelay { x }),
        0x18 => Some(Instruction::SetSound { x }),
        0x1E => Some(Instruction::AddIndex { x }),
        0x29 => Some(Instruction::Glyph { x }),
        0x33 => Some(Instruction::StoreBcd { x }),
        0x55 => Some(Instruction::StoreRegisters { x }),
        0x65 => Some(Instruction::LoadRegisters { x }),
        _ => None,
    }
}

/// Reads a word as an instruction.
///
/// Returns `None` exactly for the words that match no pattern; a decoded
/// instruction always has its operands in range.
pub fn decode(opcode: u16) -> (instr: Option<Instruction>)
    ensures
        instr == spec_decode(opcode),
        instr matches Some(decoded) ==> decoded.wf(),
{
    proof {
        lemma_opcode_fields(opcode);
    }
    let x = ((opcode & 0x0F00) >> 8) as usize;
    let y = ((opcode & 0x00F0) >> 4) as usize;
    let n = opcode & 0x000F;
    let nn = opcode & 0x00FF;
    let byte = nn as u8;
    let addr = opcode & 0x0FFF;
    match (opcode & 0xF000) >> 12 {
        0x0 => match addr {
            0x0E0 => Some(Instruction::ClearScreen),
            0x0EE => Some(Instruction::Return),
            _ => None,
        },
        0x1 => Some(Instruction::Jump { addr }),
        0x2 => Some(Instruction::Call { addr }),
        0x3 => Some(Instruction::SkipEqualByte { x, byte }),
        0x4 => Some(Instruction::SkipNotEqualByte { x, byte }),
        0x5 => if n == 0 {
            Some(Instruction::SkipEqual { x, y })
        } else {
            None
        },
        0x6 => Some(Instruction::SetByte { x, byte }),
        0x7 => Some(Instruction::AddByte { x, byte }),
        0x8 => decode_alu(x, y, n),
        0x9 => if n == 0 {
            Some(Instruction::SkipNotEqual { x, y })
        } else {
            None
        },
        0xA => Some(Instruction::SetIndex { addr }),
        0xB => Some(Instruction::JumpOffset { addr }),
        0xC => Some(Instruction::Random { x, mask: byte }),
        0xD => Some(Instruction::Draw { x, y, rows: n as usize }),
        0xE => match nn {
            0x9E => Some(Instruction::SkipKeyDown { x }),
            0xA1 => Some(Instruction::SkipKeyUp { x }),
            _ => None,
        },
        _ => decode_misc(x, nn),
    }
}

} // verus!
