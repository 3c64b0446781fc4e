//! The mathematical model of the machine: its state as plain sequences and
//! the effect of every instruction as a function from state to state.

use crate::font::FONTSET;
use crate::instr::{decode_word, Instr};
use vstd::prelude::*;

verus! {

/// Width of the display in cells.
pub const SCREEN_WIDTH: usize = 64;

/// Height of the display in cells.
pub const SCREEN_HEIGHT: usize = 32;

/// Address at which programs are loaded and execution starts.
pub const START_ADDR: u16 = 0x200;

/// The largest program that fits between the load address and the top of
/// memory.
pub const MAX_PROGRAM_SIZE: usize = 3584;

/// Why the machine cannot execute its next instruction.
#[derive(Clone, Copy, Debug, PartialEq, Eq, Structural)]
pub enum Fault {
    /// The program counter leaves no room for a two-byte instruction.
    ProgramCounterOutOfRange,
    /// The fetched word matches no instruction.
    Unimplemented { word: u16 },
    /// A call with sixteen return addresses already on the stack.
    StackOverflow,
    /// A return with an empty stack.
    StackUnderflow,
    /// The index register addresses bytes beyond the top of memory.
    AddressOutOfRange,
    /// A key instruction names a key above 15.
    KeyOutOfRange,
}

/// The state of the machine.
#[verifier::ext_equal]
pub struct Machine {
    /// Address of the next instruction.
    pub pc: u16,
    /// The 4096 bytes of memory.
    pub ram: Seq<u8>,
    /// The 2048 display cells, row-major: cell `(x, y)` is at `x + 64 * y`.
    pub screen: Seq<bool>,
    /// The sixteen general-purpose registers.
    pub v: Seq<u8>,
    /// The index register.
    pub index: u16,
    /// The return addresses of the active calls, innermost last.
    pub stack: Seq<u16>,
    /// The sixteen keys, `true` while pressed.
    pub keys: Seq<bool>,
    /// The delay timer.
    pub delay: u8,
    /// The sound timer.
    pub sound: u8,
}

/// The big-endian word at `addr`.
pub open spec fn word_at(ram: Seq<u8>, addr: int) -> u16 {
    (ram[addr] as int * 0x100 + ram[addr + 1]) as u16
}

/// The font table occupies the first 80 bytes of memory.
pub open spec fn font_loaded(ram: Seq<u8>) -> bool {
    forall|k: int| 0 <= k < 80 ==> #[trigger] ram[k] == FONTSET@[k]
}

/// Bit `col` of a sprite byte, counted from the most significant bit.
pub open spec fn bit_msb_first(byte: u8, col: int) -> bool {
    byte & (0x80u8 >> (col as u8)) != 0
}

/// Whether the sprite stored at `base` has its bit at (`row`, `col`) set.
pub open spec fn sprite_bit(ram: Seq<u8>, base: int, row: int, col: int) -> bool {
    bit_msb_first(ram[base + row], col)
}

/// The display cell that the sprite bit at (`row`, `col`) lands on when the
/// sprite is drawn with the register values `vx` and `vy`: the bit's column
/// is added to `vy` and wraps at the display width, its row is added to `vx`
/// and wraps at the display height.
pub open spec fn sprite_cell(vx: int, vy: int, row: int, col: int) -> int {
    (vy + col) % 64 + 64 * ((vx + row) % 32)
}

/// Whether `k` is the lowest pressed key.
pub open spec fn is_lowest_key(keys: Seq<bool>, k: int) -> bool {
    &&& 0 <= k < keys.len()
    &&& keys[k]
    &&& forall|j: int| 0 <= j < k ==> !keys[j]
}

/// Whether any key is pressed.
pub open spec fn any_key(keys: Seq<bool>) -> bool {
    exists|k: int| 0 <= k < keys.len() && keys[k]
}

/// The lowest pressed key, where one is pressed.
pub open spec fn lowest_key(keys: Seq<bool>) -> int {
    choose|k: int| is_lowest_key(keys, k)
}

/// A register file with register `x` set to `value` and then the flag
/// register set to `flag`: the flag wins where `x` is the flag register.
pub open spec fn with_flag(v: Seq<u8>, x: int, value: u8, flag: u8) -> Seq<u8> {
    v.update(x, value).update(0xF, flag)
}

impl Machine {
    /// Every component has its fixed size and the stack is at most 16 deep.
    pub open spec fn wf(self) -> bool {
        &&& self.ram.len() == 4096
        &&& self.screen.len() == 2048
        &&& self.v.len() == 16
        &&& self.keys.len() == 16
        &&& self.stack.len() <= 16
    }

    /// The state after construction or reset: everything zero, the program
    /// counter at the load address and the font at the base of memory.
    pub open spec fn initial() -> Machine {
        Machine {
            pc: 0x200,
            ram: Seq::new(4096, |a: int| if a < 80 { FONTSET@[a] } else { 0u8 }),
            screen: Seq::new(2048, |p: int| false),
            v: Seq::new(16, |r: int| 0u8),
            index: 0,
            stack: Seq::empty(),
            keys: Seq::new(16, |k: int| false),
            delay: 0,
            sound: 0,
        }
    }

    /// The state with `bytes` written to memory from the load address on.
    pub open spec fn loaded(self, bytes: Seq<u8>) -> Machine {
        Machine {
            ram: Seq::new(
                self.ram.len(),
                |a: int|
                    if 0x200 <= a < 0x200 + bytes.len() {
                        bytes[a - 0x200]
                    } else {
                        self.ram[a]
                    },
            ),
            ..self
        }
    }

    /// The state with key `k` pressed or released.
    pub open spec fn with_key(self, k: int, pressed: bool) -> Machine {
        Machine { keys: self.keys.update(k, pressed), ..self }
    }

    /// The state after one tick of the 60 Hz clock: each timer that is not
    /// zero goes down by one.
    pub open spec fn timers_ticked(self) -> Machine {
        Machine {
            delay: if self.delay > 0 { (self.delay - 1) as u8 } else { 0 },
            sound: if self.sound > 0 { (self.sound - 1) as u8 } else { 0 },
            ..self
        }
    }

    /// The instruction word at the program counter.
    pub open spec fn fetch_word(self) -> u16 {
        word_at(self.ram, self.pc as int)
    }

    /// The state with the program counter moved past one instruction.
    pub open spec fn advanced(self) -> Machine {
        Machine { pc: (self.pc + 2) as u16, ..self }
    }

    /// The state with the program counter moved past one more instruction
    /// where `taken` holds.
    pub open spec fn skipped(self, taken: bool) -> Machine {
        if taken {
            self.advanced()
        } else {
            self
        }
    }

    /// Whether some set bit of the sprite at the index register lands on
    /// display cell `p`.
    pub open spec fn sprite_covers(self, vx: int, vy: int, rows: int, p: int) -> bool {
        exists|row: int, col: int|
            0 <= row < rows && 0 <= col < 8 && #[trigger] sprite_bit(
                self.ram,
                self.index as int,
                row,
                col,
            ) && sprite_cell(vx, vy, row, col) == p
    }

    /// Whether some set bit of the sprite at the index register lands on a
    /// display cell that is on.
    pub open spec fn sprite_collides(self, vx: int, vy: int, rows: int) -> bool {
        exists|row: int, col: int|
            0 <= row < rows && 0 <= col < 8 && #[trigger] sprite_bit(
                self.ram,
                self.index as int,
                row,
                col,
            ) && self.screen[sprite_cell(vx, vy, row, col)]
    }

    /// The state after drawing: every cell that a set sprite bit lands on is
    /// toggled, and the flag register tells whether a cell went off.
    pub open spec fn drawn(self, x: int, y: int, rows: int) -> Machine {
        let vx = self.v[x] as int;
        let vy = self.v[y] as int;
        Machine {
            screen: Seq::new(
                self.screen.len(),
                |p: int| self.screen[p] != self.sprite_covers(vx, vy, rows, p),
            ),
            v: self.v.update(
                0xF,
                if self.sprite_collides(vx, vy, rows) {
                    1u8
                } else {
                    0u8
                },
            ),
            ..self
        }
    }

    /// The state with the three decimal cells of `value` stored at the index
    /// register: the hundreds, the tens, and the value modulo one hundred.
    pub open spec fn bcd_stored(self, value: u8) -> Machine {
        let i = self.index as int;
        Machine {
            ram: self.ram.update(i, value / 100).update(i + 1, (value / 10) % 10).update(
                i + 2,
                value % 100,
            ),
            ..self
        }
    }

    /// The state with registers `0..=x` copied to memory at the index
    /// register.
    pub open spec fn registers_stored(self, x: int) -> Machine {
        let i = self.index as int;
        Machine {
            ram: Seq::new(
                self.ram.len(),
                |a: int|
                    if i <= a <= i + x {
                        self.v[a - i]
                    } else {
                        self.ram[a]
                    },
            ),
            ..self
        }
    }

    /// The state with registers `0..=x` copied from memory at the index
    /// register.
    pub open spec fn registers_loaded(self, x: int) -> Machine {
        let i = self.index as int;
        Machine {
            v: Seq::new(
                self.v.len(),
                |r: int|
                    if r <= x {
                        self.ram[i + r]
                    } else {
                        self.v[r]
                    },
            ),
            ..self
        }
    }

    /// The fault that `ins` would raise in this state, if any.
    pub open spec fn instr_fault(self, ins: Instr) -> Option<Fault> {
        match ins {
            Instr::Return => if self.stack.len() == 0 {
                Some(Fault::StackUnderflow)
            } else {
                None
            },
            Instr::Call { .. } => if self.stack.len() >= 16 {
                Some(Fault::StackOverflow)
            } else {
                None
            },
            Instr::Draw { rows, .. } => if rows > 0 && self.index + rows > 4096 {
                Some(Fault::AddressOutOfRange)
            } else {
                None
            },
            Instr::SkipKeyDown { x } | Instr::SkipKeyUp { x } => if self.v[x as int] >= 16 {
                Some(Fault::KeyOutOfRange)
            } else {
                None
            },
            Instr::Bcd { .. } => if self.index + 2 >= 4096 {
                Some(Fault::AddressOutOfRange)
            } else {
                None
            },
            Instr::Store { x } | Instr::Load { x } => if self.index + x >= 4096 {
                Some(Fault::AddressOutOfRange)
            } else {
                None
            },
            _ => None,
        }
    }

    /// The state after executing `ins`, the program counter having moved
    /// past it already; `rnd` is the random byte that `Random` consumes.
    pub open spec fn apply(self, ins: Instr, rnd: u8) -> Machine {
        let v = self.v;
        match ins {
            Instr::Nop => self,
            Instr::ClearScreen => Machine {
                screen: Seq::new(self.screen.len(), |p: int| false),
                ..self
            },
            Instr::Return => Machine {
                pc: self.stack.last(),
                stack: self.stack.drop_last(),
                ..self
            },
            Instr::Jump { addr } => Machine { pc: addr, ..self },
            Instr::Call { addr } => Machine { pc: addr, stack: self.stack.push(self.pc), ..self },
            Instr::SkipEqImm { x, nn } => self.skipped(v[x as int] == nn),
            Instr::SkipNeImm { x, nn } => self.skipped(v[x as int] != nn),
            Instr::SkipEqReg { x, y } => self.skipped(v[x as int] == v[y as int]),
            Instr::SkipNeReg { x, y } => self.skipped(v[x as int] != v[y as int]),
            Instr::LoadImm { x, nn } => Machine { v: v.update(x as int, nn), ..self },
            Instr::AddImm { x, nn } => Machine {
                v: v.update(x as int, ((v[x as int] + nn) % 256) as u8),
                ..self
            },
            Instr::Move { x, y } => Machine { v: v.update(x as int, v[y as int]), ..self },
            Instr::Or { x, y } => Machine {
                v: v.update(x as int, v[x as int] | v[y as int]),
                ..self
            },
            Instr::And { x, y } => Machine {
                v: v.update(x as int, v[x as int] & v[y as int]),
                ..self
            },
            Instr::Xor { x, y } => Machine {
                v: v.update(x as int, v[x as int] ^ v[y as int]),
                ..self
            },
            Instr::AddReg { x, y } => {
                let sum = v[x as int] + v[y as int];
                Machine {
                    v: with_flag(
                        v,
                        x as int,
                        (sum % 256) as u8,
                        if sum > 255 {
                            1u8
                        } else {
                            0u8
                        },
                    ),
                    ..self
                }
            },
            Instr::SubReg { x, y } => {
                let diff = v[x as int] - v[y as int];
                Machine {
                    v: with_flag(
                        v,
                        x as int,
                        (diff % 256) as u8,
                        if diff >= 0 {
                            1u8
                        } else {
                            0u8
                        },
                    ),
                    ..self
                }
            },
            Instr::SubRev { x, y } => {
                let diff = v[y as int] - v[x as int];
                Machine {
                    v: with_flag(
                        v,
                        x as int,
                        (diff % 256) as u8,
                        if diff >= 0 {
                            1u8
                        } else {
                            0u8
                        },
                    ),
                    ..self
                }
            },
            Instr::ShiftRight { x } => Machine {
                v: with_flag(v, x as int, v[x as int] / 2, v[x as int] % 2),
                ..self
            },
            Instr::ShiftLeft { x } => Machine {
                v: with_flag(v, x as int, ((v[x as int] * 2) % 256) as u8, v[x as int] / 128),
                ..self
            },
            Instr::JumpOffset { addr } => Machine { pc: (v[0] + addr) as u16, ..self },
            Instr::Random { x, nn } => Machine { v: v.update(x as int, rnd & nn), ..self },
            Instr::Draw { x, y, rows } => self.drawn(x as int, y as int, rows as int),
            Instr::SkipKeyDown { x } => self.skipped(self.keys[v[x as int] as int]),
            Instr::SkipKeyUp { x } => self.skipped(!self.keys[v[x as int] as int]),
            Instr::LoadDelay { x } => Machine { v: v.update(x as int, self.delay), ..self },
            Instr::WaitKey { x } => if any_key(self.keys) {
                Machine { v: v.update(x as int, lowest_key(self.keys) as u8), ..self }
            } else {
                Machine { pc: (self.pc - 2) as u16, ..self }
            },
            Instr::SetDelay { x } => Machine { delay: v[x as int], ..self },
            Instr::SetSound { x } => Machine { sound: v[x as int], ..self },
            Instr::AddIndex { x } => Machine {
                index: ((self.index + v[x as int]) % 0x10000) as u16,
                ..self
            },
            Instr::FontAddr { x } => Machine { index: (5 * v[x as int]) as u16, ..self },
            Instr::Bcd { x } => self.bcd_stored(v[x as int]),
            Instr::Store { x } => self.registers_stored(x as int),
            Instr::Load { x } => self.registers_loaded(x as int),
        }
    }

    /// The instruction that the machine is about to execute, where the
    /// program counter is in range and the word decodes.
    pub open spec fn next_instr(self) -> Option<Instr> {
        if self.pc as int + 1 < 4096 {
            decode_word(self.fetch_word())
        } else {
            None
        }
    }

    /// The fault that executing the next instruction would raise, if any.
    pub open spec fn fault(self) -> Option<Fault> {
        if self.pc as int + 1 >= 4096 {
            Some(Fault::ProgramCounterOutOfRange)
        } else {
            match decode_word(self.fetch_word()) {
                None => Some(Fault::Unimplemented { word: self.fetch_word() }),
                Some(ins) => self.instr_fault(ins),
            }
        }
    }

    /// The state after fetching and executing one instruction with the
    /// random byte `rnd`. It is meaningful where `fault` is `None`.
    pub open spec fn step(self, rnd: u8) -> Machine
        recommends
            self.fault() is None,
    {
        match self.next_instr() {
            Some(ins) => self.advanced().apply(ins, rnd),
            None => self,
        }
    }
}

/// At most one key is the lowest pressed key.
pub proof fn lemma_lowest_key_unique(keys: Seq<bool>, k: int)
    requires
        is_lowest_key(keys, k),
    ensures
        any_key(keys),
        lowest_key(keys) == k,
{
    let c = lowest_key(keys);
    assert(is_lowest_key(keys, c));
    if c < k {
        assert(!keys[c]);
    } else if k < c {
        assert(!keys[k]);
    }
}

/// Two sprite bits that land on the same cell are the same bit: a sprite is
/// at most 16 rows tall and 8 columns wide, less than the display.
pub proof fn lemma_sprite_cell_injective(
    vx: int,
    vy: int,
    row1: int,
    col1: int,
    row2: int,
    col2: int,
)
    requires
        0 <= vx,
        0 <= vy,
        0 <= row1 < 16,
        0 <= row2 < 16,
        0 <= col1 < 8,
        0 <= col2 < 8,
        sprite_cell(vx, vy, row1, col1) == sprite_cell(vx, vy, row2, col2),
    ensures
        row1 == row2,
        col1 == col2,
{
}

/// A sprite bit lands on a cell of the display.
pub proof fn lemma_sprite_cell_bounds(vx: int, vy: int, row: int, col: int)
    requires
        0 <= vx,
        0 <= vy,
        0 <= row,
        0 <= col,
    ensures
        0 <= sprite_cell(vx, vy, row, col) < 2048,
        sprite_cell(vx, vy, row, col) % 64 == (vy + col) % 64,
        sprite_cell(vx, vy, row, col) / 64 == (vx + row) % 32,
{
}

} // verus!
