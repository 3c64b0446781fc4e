//! Instruction words and their decoding.
//!
//! An instruction is a 16-bit word made of four nibbles. The first nibble
//! selects the family; the second is almost always a register index, the third
//! a second register index, and the low byte or the low three nibbles an
//! immediate operand.

use vstd::prelude::*;

verus! {

/// One decoded instruction. `x` and `y` are register indices below 16.
#[derive(Clone, Copy, Debug, PartialEq, Eq, Structural)]
pub enum Instr {
    /// The all-zero word: no effect.
    Nop,
    /// Turn every display cell off.
    ClearScreen,
    /// Pop the return address off the stack into the program counter.
    Return,
    /// Continue at `addr`.
    Jump { addr: u16 },
    /// Push the program counter and continue at `addr`.
    Call { addr: u16 },
    /// Skip the next instruction when register `x` equals `nn`.
    SkipEqImm { x: usize, nn: u8 },
    /// Skip the next instruction when register `x` differs from `nn`.
    SkipNeImm { x: usize, nn: u8 },
    /// Skip the next instruction when registers `x` and `y` are equal.
    SkipEqReg { x: usize, y: usize },
    /// Register `x` becomes `nn`.
    LoadImm { x: usize, nn: u8 },
    /// Register `x` grows by `nn`, modulo 256; the flag is untouched.
    AddImm { x: usize, nn: u8 },
    /// Register `x` becomes register `y`.
    Move { x: usize, y: usize },
    /// Register `x` becomes `x | y`.
    Or { x: usize, y: usize },
    /// Register `x` becomes `x & y`.
    And { x: usize, y: usize },
    /// Register `x` becomes `x ^ y`.
    Xor { x: usize, y: usize },
    /// Register `x` becomes `x + y` modulo 256; the flag is the carry.
    AddReg { x: usize, y: usize },
    /// Register `x` becomes `x - y` modulo 256; the flag is 1 without borrow.
    SubReg { x: usize, y: usize },
    /// Register `x` is halved; the flag is the bit shifted out.
    ShiftRight { x: usize },
    /// Register `x` becomes `y - x` modulo 256; the flag is 1 without borrow.
    SubRev { x: usize, y: usize },
    /// Register `x` is doubled modulo 256; the flag is the bit shifted out.
    ShiftLeft { x: usize },
    /// Skip the next instruction when registers `x` and `y` differ.
    SkipNeReg { x: usize, y: usize },
    /// Continue at `addr` plus register 0.
    JumpOffset { addr: u16 },
    /// Register `x` becomes a random byte masked with `nn`.
    Random { x: usize, nn: u8 },
    /// Draw the `rows`-byte sprite at the index register, positioned by
    /// registers `x` and `y`; the flag reports a collision.
    Draw { x: usize, y: usize, rows: u8 },
    /// Skip the next instruction when the key named by register `x` is down.
    SkipKeyDown { x: usize },
    /// Skip the next instruction when the key named by register `x` is up.
    SkipKeyUp { x: usize },
    /// Register `x` becomes the delay timer.
    LoadDelay { x: usize },
    /// Register `x` becomes the lowest pressed key; repeats until one is down.
    WaitKey { x: usize },
    /// The delay timer becomes register `x`.
    SetDelay { x: usize },
    /// The sound timer becomes register `x`.
    SetSound { x: usize },
    /// The index register grows by register `x`, modulo 65536.
    AddIndex { x: usize },
    /// The index register becomes the address of the glyph for register `x`.
    FontAddr { x: usize },
    /// Store the hundreds digit of register `x`, its tens digit and its value
    /// modulo 100 in the three bytes at the index register.
    Bcd { x: usize },
    /// Store registers `0..=x` at the index register.
    Store { x: usize },
    /// Load registers `0..=x` from the index register.
    Load { x: usize },
}

impl Instr {
    /// Every register index that the instruction names is below 16, and a
    /// sprite has at most 15 rows.
    pub open spec fn wf(self) -> bool {
        match self {
            Instr::Nop | Instr::ClearScreen | Instr::Return => true,
            Instr::Jump { addr } | Instr::Call { addr } | Instr::JumpOffset { addr } => addr
                < 0x1000,
            Instr::SkipEqImm { x, .. }
            | Instr::SkipNeImm { x, .. }
            | Instr::LoadImm { x, .. }
            | Instr::AddImm { x, .. }
            | Instr::Random { x, .. }
            | Instr::ShiftRight { x }
            | Instr::ShiftLeft { x }
            | Instr::SkipKeyDown { x }
            | Instr::SkipKeyUp { x }
            | Instr::LoadDelay { x }
            | Instr::WaitKey { x }
            | Instr::SetDelay { x }
            | Instr::SetSound { x }
            | Instr::AddIndex { x }
            | Instr::FontAddr { x }
            | Instr::Bcd { x }
            | Instr::Store { x }
            | Instr::Load { x } => x < 16,
            Instr::SkipEqReg { x, y }
            | Instr::Move { x, y }
            | Instr::Or { x, y }
            | Instr::And { x, y }
            | Instr::Xor { x, y }
            | Instr::AddReg { x, y }
            | Instr::SubReg { x, y }
            | Instr::SubRev { x, y }
            | Instr::SkipNeReg { x, y } => x < 16 && y < 16,
            Instr::Draw { x, y, rows } => x < 16 && y < 16 && rows < 16,
        }
    }

    /// The instruction consumes a random byte.
    pub open spec fn is_random(self) -> bool {
        self is Random
    }
}

/// The first nibble of a word: its family.
pub open spec fn family(op: u16) -> int {
    op as int / 0x1000
}

/// The second nibble of a word.
pub open spec fn operand_x(op: u16) -> usize {
    ((op as int / 0x100) % 16) as usize
}

/// The third nibble of a word.
pub open spec fn operand_y(op: u16) -> usize {
    ((op as int / 0x10) % 16) as usize
}

/// The fourth nibble of a word.
pub open spec fn operand_n(op: u16) -> u8 {
    (op as int % 16) as u8
}

/// The low byte of a word.
pub open spec fn operand_nn(op: u16) -> u8 {
    (op as int % 0x100) as u8
}

/// The low twelve bits of a word.
pub open spec fn operand_nnn(op: u16) -> u16 {
    (op as int % 0x1000) as u16
}

/// The register-to-register family, told apart by the last nibble.
pub open spec fn decode_alu(op: u16) -> Option<Instr> {
    let x = operand_x(op);
    let y = operand_y(op);
    let n = operand_n(op);
    if n == 0x0 {
        Some(Instr::Move { x, y })
    } else if n == 0x1 {
        Some(Instr::Or { x, y })
    } else if n == 0x2 {
        Some(Instr::And { x, y })
    } else if n == 0x3 {
        Some(Instr::Xor { x, y })
    } else if n == 0x4 {
        Some(Instr::AddReg { x, y })
    } else if n == 0x5 {
        Some(Instr::SubReg { x, y })
    } else if n == 0x6 {
        Some(Instr::ShiftRight { x })
    } else if n == 0x7 {
        Some(Instr::SubRev { x, y })
    } else if n == 0xE {
        Some(Instr::ShiftLeft { x })
    } else {
        None
    }
}

/// The timer, keypad and memory family, told apart by the low byte.
pub open spec fn decode_misc(op: u16) -> Option<Instr> {
    let x = operand_x(op);
    let nn = operand_nn(op);
    if nn == 0x07 {
        Some(Instr::LoadDelay { x })
    } else if nn == 0x0A {
        Some(Instr::WaitKey { x })
    } else if nn == 0x15 {
        Some(Instr::SetDelay { x })
    } else if nn == 0x18 {
        Some(Instr::SetSound { x })
    } else if nn == 0x1E {
        Some(Instr::AddIndex { x })
    } else if nn == 0x29 {
        Some(Instr::FontAddr { x })
    } else if nn == 0x33 {
        Some(Instr::Bcd { x })
    } else if nn == 0x55 {
        Some(Instr::Store { x })
    } else if nn == 0x65 {
        Some(Instr::Load { x })
    } else {
        None
    }
}

/// The instruction that a word encodes, or `None` where the word matches no
/// instruction of the set.
pub open spec fn decode_word(op: u16) -> Option<Instr> {
    let f = family(op);
    let x = operand_x(op);
    let y = operand_y(op);
    let nn = operand_nn(op);
    let addr = operand_nnn(op);
    if f == 0x0 {
        if op == 0x0000 {
            Some(Instr::Nop)
        } else if op == 0x00E0 {
            Some(Instr::ClearScreen)
        } else if op == 0x00EE {
            Some(Instr::Return)
        } else {
            None
        }
    } else if f == 0x1 {
        Some(Instr::Jump { addr })
    } else if f == 0x2 {
        Some(Instr::Call { addr })
    } else if f == 0x3 {
        Some(Instr::SkipEqImm { x, nn })
    } else if f == 0x4 {
        Some(Instr::SkipNeImm { x, nn })
    } else if f == 0x5 {
        Some(Instr::SkipEqReg { x, y })
    } else if f == 0x6 {
        Some(Instr::LoadImm { x, nn })
    } else if f == 0x7 {
        Some(Instr::AddImm { x, nn })
    } else if f == 0x8 {
        decode_alu(op)
    } else if f == 0x9 {
        if operand_n(op) == 0 {
            Some(Instr::SkipNeReg { x, y })
        } else {
            None
        }
    } else if f == 0xB {
        Some(Instr::JumpOffset { addr })
    } else if f == 0xC {
        Some(Instr::Random { x, nn })
    } else if f == 0xD {
        Some(Instr::Draw { x, y, rows: operand_n(op) })
    } else if f == 0xE {
        if nn == 0x9E {
            Some(Instr::SkipKeyDown { x })
        } else if nn == 0xA1 {
            Some(Instr::SkipKeyUp { x })
        } else {
            None
        }
    } else if f == 0xF {
        decode_misc(op)
    } else {
        None
    }
}

/// Masking and shifting a word yields its nibbles and immediates.
pub proof fn lemma_word_fields(op: u16)
    ensures
        (op & 0xF000) >> 12 == family(op),
        (op & 0x0F00) >> 8 == operand_x(op),
        (op & 0x00F0) >> 4 == operand_y(op),
        op & 0x000F == operand_n(op),
        op & 0x00FF == operand_nn(op),
        op & 0x0FFF == operand_nnn(op),
        op as int == 0x1000 * family(op) + 0x100 * operand_x(op) + 0x10 * operand_y(op)
            + operand_n(op),
        operand_nn(op) as int == 0x10 * operand_y(op) + operand_n(op),
{
    assert((op & 0xF000) >> 12 == op / 0x1000) by (bit_vector);
    assert((op & 0x0F00) >> 8 == (op / 0x100) % 16) by (bit_vector);
    assert((op & 0x00F0) >> 4 == (op / 0x10) % 16) by (bit_vector);
    assert(op & 0x000F == op % 16) by (bit_vector);
    assert(op & 0x00FF == op % 0x100) by (bit_vector);
    assert(op & 0x0FFF == op % 0x1000) by (bit_vector);
}

/// Every decoded instruction names registers below 16.
pub proof fn lemma_decode_wf(op: u16)
    ensures
        decode_word(op) matches Some(ins) ==> ins.wf(),
{
}

/// Decodes an instruction word.
pub fn decode(op: u16) -> (r: Option<Instr>)
    ensures
        r == decode_word(op),
        r matches Some(ins) ==> ins.wf(),
{
    let d1: u16 = (op & 0xF000) >> 12;
    let d2: u16 = (op & 0x0F00) >> 8;
    let d3: u16 = (op & 0x00F0) >> 4;
    let d4: u16 = op & 0x000F;
    let nnn: u16 = op & 0x0FFF;
    let low: u16 = op & 0x00FF;
    proof {
        lemma_word_fields(op);
        lemma_decode_wf(op);
    }
    let nn: u8 = low as u8;
    let x: usize = d2 as usize;
    let y: usize = d3 as usize;
    match (d1, d2, d3, d4) {
        (0, 0, 0, 0) => Some(Instr::Nop),
        (0, 0, 0xE, 0) => Some(Instr::ClearScreen),
        (0, 0, 0xE, 0xE) => Some(Instr::Return),
        (1, _, _, _) => Some(Instr::Jump { addr: nnn }),
        (2, _, _, _) => Some(Instr::Call { addr: nnn }),
        (3, _, _, _) => Some(Instr::SkipEqImm { x, nn }),
        (4, _, _, _) => Some(Instr::SkipNeImm { x, nn }),
        (5, _, _, _) => Some(Instr::SkipEqReg { x, y }),
        (6, _, _, _) => Some(Instr::LoadImm { x, nn }),
        (7, _, _, _) => Some(Instr::AddImm { x, nn }),
        (8, _, _, 0) => Some(Instr::Move { x, y }),
        (8, _, _, 1) => Some(Instr::Or { x, y }),
        (8, _, _, 2) => Some(Instr::And { x, y }),
        (8, _, _, 3) => Some(Instr::Xor { x, y }),
        (8, _, _, 4) => Some(Instr::AddReg { x, y }),
        (8, _, _, 5) => Some(Instr::SubReg { x, y }),
        (8, _, _, 6) => Some(Instr::ShiftRight { x }),
        (8, _, _, 7) => Some(Instr::SubRev { x, y }),
        (8, _, _, 0xE) => Some(Instr::ShiftLeft { x }),
        (9, _, _, 0) => Some(Instr::SkipNeReg { x, y }),
        (0xB, _, _, _) => Some(Instr::JumpOffset { addr: nnn }),
        (0xC, _, _, _) => Some(Instr::Random { x, nn }),
        (0xD, _, _, _) => Some(Instr::Draw { x, y, rows: d4 as u8 }),
        (0xE, _, 9, 0xE) => Some(Instr::SkipKeyDown { x }),
        (0xE, _, 0xA, 1) => Some(Instr::SkipKeyUp { x }),
        (0xF, _, 0, 7) => Some(Instr::LoadDelay { x }),
        (0xF, _, 0, 0xA) => Some(Instr::WaitKey { x }),
        (0xF, _, 1, 5) => Some(Instr::SetDelay { x }),
        (0xF, _, 1, 8) => Some(Instr::SetSound { x }),
        (0xF, _, 1, 0xE) => Some(Instr::AddIndex { x }),
        (0xF, _, 2, 9) => Some(Instr::FontAddr { x }),
        (0xF, _, 3, 3) => Some(Instr::Bcd { x }),
        (0xF, _, 5, 5) => Some(Instr::Store { x }),
        (0xF, _, 6, 5) => Some(Instr::Load { x }),
        _ => None,
    }
}

} // verus!
