//! The executable machine: fixed-size arrays mutated in place, with every
//! operation tied to the model in [`crate::machine`].

use crate::entropy::random_byte;
use crate::font::FONTSET;
use crate::instr::{decode, decode_word, Instr};
use crate::laws::lemma_apply_deterministic;
use crate::machine::{
    any_key, bit_msb_first, lemma_lowest_key_unique, lemma_sprite_cell_bounds,
    lemma_sprite_cell_injective, lowest_key, sprite_bit, sprite_cell, with_flag, Fault, Machine,
    MAX_PROGRAM_SIZE, SCREEN_WIDTH, START_ADDR,
};
use vstd::prelude::*;

verus! {

/// The machine. The host creates one, loads a program, and then alternates
/// instruction steps, timer ticks and key updates.
pub struct Emu {
    pc: u16,
    ram: [u8; 4096],
    screen: [bool; 2048],
    v_reg: [u8; 16],
    i_reg: u16,
    sp: u16,
    stack: [u16; 16],
    keys: [bool; 16],
    dt: u8,
    st: u8,
}

impl View for Emu {
    type V = Machine;

    /// The state that the machine is in. Only the live part of the stack
    /// array belongs to it.
    closed spec fn view(&self) -> Machine {
        Machine {
            pc: self.pc,
            ram: self.ram@,
            screen: self.screen@,
            v: self.v_reg@,
            index: self.i_reg,
            stack: self.stack@.take(
                if self.sp <= 16 {
                    self.sp as int
                } else {
                    16
                },
            ),
            keys: self.keys@,
            delay: self.dt,
            sound: self.st,
        }
    }
}

/// Memory as it is after a reset: the font at the base, zero above it.
fn fresh_ram() -> (ram: [u8; 4096])
    ensures
        ram@ == Machine::initial().ram,
{
    let mut ram: [u8; 4096] = [0u8; 4096];
    let mut k: usize = 0;
    while k < 80
        invariant
            k <= 80,
            forall|a: int| 0 <= a < k ==> ram@[a] == FONTSET@[a],
            forall|a: int| k <= a < 4096 ==> ram@[a] == 0,
        decreases 80 - k,
    {
        ram[k] = FONTSET[k];
        k += 1;
    }
    ram
}

impl Emu {
    /// The stack pointer stays within the stack.
    #[verifier::type_invariant]
    spec fn inv(self) -> bool {
        self.sp <= 16
    }

    /// The state of every machine is well formed.
    pub proof fn lemma_view_wf(self)
        ensures
            self@.wf(),
    {
    }

    /// Creates a machine in its initial state.
    pub fn new() -> (emu: Emu)
        ensures
            emu@ == Machine::initial(),
            emu@.wf(),
    {
        Emu {
            pc: START_ADDR,
            ram: fresh_ram(),
            screen: [false; 2048],
            v_reg: [0u8; 16],
            i_reg: 0,
            sp: 0,
            stack: [0u16; 16],
            keys: [false; 16],
            dt: 0,
            st: 0,
        }
    }

    /// Puts the machine back into its initial state.
    pub fn reset(&mut self)
        ensures
            final(self)@ == Machine::initial(),
            final(self)@.wf(),
    {
        proof {
            use_type_invariant(&*self);
        }
        self.pc = START_ADDR;
        self.ram = fresh_ram();
        self.screen = [false; 2048];
        self.v_reg = [0u8; 16];
        self.i_reg = 0;
        self.sp = 0;
        self.stack = [0u16; 16];
        self.keys = [false; 16];
        self.dt = 0;
        self.st = 0;
    }

    /// Writes a program into memory from the load address on. A program of
    /// more than 3584 bytes does not fit: it is refused and the machine is
    /// left as it was.
    pub fn load(&mut self, data: &[u8]) -> (ok: bool)
        ensures
            ok == (data@.len() <= 3584),
            ok ==> final(self)@ == old(self)@.loaded(data@),
            !ok ==> final(self)@ == old(self)@,
            final(self)@.wf(),
    {
        proof {
            use_type_invariant(&*self);
        }
        let n: usize = data.len();
        if n > MAX_PROGRAM_SIZE {
            return false;
        }
        let start: usize = START_ADDR as usize;
        let ghost before = self@;
        let mut k: usize = 0;
        while k < n
            invariant
                n == data@.len(),
                n <= 3584,
                start == 0x200,
                k <= n,
                self.sp <= 16,
                before.wf(),
                self@ == (Machine { ram: self@.ram, ..before }),
                forall|a: int| 0 <= a < 4096 ==> self@.ram[a] == if 0x200 <= a < 0x200 + k {
                    data@[a - 0x200]
                } else {
                    before.ram[a]
                },
            decreases n - k,
        {
            self.ram[start + k] = data[k];
            k += 1;
        }
        true
    }

    /// Records that key `index` is pressed or released.
    pub fn set_key(&mut self, index: usize, pressed: bool)
        requires
            index < 16,
        ensures
            final(self)@ == old(self)@.with_key(index as int, pressed),
            final(self)@.wf(),
    {
        proof {
            use_type_invariant(&*self);
        }
        self.keys[index] = pressed;
    }

    /// The display: 2048 cells, row-major, cell `(x, y)` at `x + 64 * y`.
    pub fn display(&self) -> (cells: &[bool; 2048])
        ensures
            cells@ == self@.screen,
    {
        &self.screen
    }

    /// Whether the display cell in column `x` of row `y` is on.
    pub fn pixel(&self, x: usize, y: usize) -> (on: bool)
        requires
            x < 64,
            y < 32,
        ensures
            on == self@.screen[x + 64 * y],
    {
        self.screen[x + SCREEN_WIDTH * y]
    }

    /// The sound timer. The host sounds a tone while it is not zero.
    pub fn sound_timer(&self) -> (t: u8)
        ensures
            t == self@.sound,
    {
        self.st
    }

    /// The delay timer.
    pub fn delay_timer(&self) -> (t: u8)
        ensures
            t == self@.delay,
    {
        self.dt
    }

    /// The address of the next instruction.
    pub fn program_counter(&self) -> (pc: u16)
        ensures
            pc == self@.pc,
    {
        self.pc
    }

    /// The index register.
    pub fn index_register(&self) -> (i: u16)
        ensures
            i == self@.index,
    {
        self.i_reg
    }

    /// General-purpose register `x`.
    pub fn register(&self, x: usize) -> (value: u8)
        requires
            x < 16,
        ensures
            value == self@.v[x as int],
    {
        self.v_reg[x]
    }

    /// The byte of memory at `addr`.
    pub fn memory(&self, addr: usize) -> (byte: u8)
        requires
            addr < 4096,
        ensures
            byte == self@.ram[addr as int],
    {
        self.ram[addr]
    }

    /// The number of calls that have not returned yet.
    pub fn stack_depth(&self) -> (depth: usize)
        ensures
            depth == self@.stack.len(),
    {
        proof {
            use_type_invariant(self);
        }
        self.sp as usize
    }

    /// Counts both timers down by one, stopping at zero. The host calls this
    /// at 60 Hz, whatever the instruction rate.
    pub fn tick_timers(&mut self)
        ensures
            final(self)@ == old(self)@.timers_ticked(),
            final(self)@.wf(),
    {
        proof {
            use_type_invariant(&*self);
        }
        if self.dt > 0 {
            self.dt -= 1;
        }
        if self.st > 0 {
            self.st -= 1;
        }
    }

    /// Pushes a return address onto the stack.
    fn push(&mut self, val: u16)
        requires
            old(self)@.stack.len() < 16,
        ensures
            final(self)@ == (Machine { stack: old(self)@.stack.push(val), ..old(self)@ }),
    {
        proof {
            use_type_invariant(&*self);
        }
        self.stack[self.sp as usize] = val;
        self.sp += 1;
    }

    /// Pops the innermost return address off the stack.
    fn pop(&mut self) -> (val: u16)
        requires
            old(self)@.stack.len() > 0,
        ensures
            val == old(self)@.stack.last(),
            final(self)@ == (Machine { stack: old(self)@.stack.drop_last(), ..old(self)@ }),
    {
        proof {
            use_type_invariant(&*self);
        }
        self.sp -= 1;
        self.stack[self.sp as usize]
    }

    /// Reads the big-endian instruction word at the program counter and
    /// moves the program counter past it.
    fn fetch(&mut self) -> (op: u16)
        requires
            old(self)@.pc + 1 < 4096,
        ensures
            op == old(self)@.fetch_word(),
            final(self)@ == old(self)@.advanced(),
    {
        proof {
            use_type_invariant(&*self);
        }
        let pc: usize = self.pc as usize;
        let higher_byte: u16 = self.ram[pc] as u16;
        let lower_byte: u16 = self.ram[pc + 1] as u16;
        let op: u16 = (higher_byte << 8) | lower_byte;
        proof {
            lemma_big_endian(self.ram[pc as int], self.ram[pc + 1]);
        }
        self.pc += 2;
        op
    }

    /// Stores the three decimal cells of register `x` at the index register.
    fn store_bcd(&mut self, x: usize)
        requires
            x < 16,
            old(self)@.index + 2 < 4096,
        ensures
            final(self)@ == old(self)@.bcd_stored(old(self)@.v[x as int]),
    {
        proof {
            use_type_invariant(&*self);
        }
        let vx: u8 = self.v_reg[x];
        let i: usize = self.i_reg as usize;
        self.ram[i] = vx / 100;
        self.ram[i + 1] = (vx / 10) % 10;
        self.ram[i + 2] = vx % 100;
    }

    /// Copies registers `0..=x` to memory at the index register.
    fn store_registers(&mut self, x: usize)
        requires
            x < 16,
            old(self)@.index + x < 4096,
        ensures
            final(self)@ == old(self)@.registers_stored(x as int),
    {
        proof {
            use_type_invariant(&*self);
        }
        let i: usize = self.i_reg as usize;
        let ghost before = self@;
        let mut idx: usize = 0;
        while idx <= x
            invariant
                x < 16,
                i + x < 4096,
                i == before.index,
                idx <= x + 1,
                self.sp <= 16,
                before.wf(),
                self@ == (Machine { ram: self@.ram, ..before }),
                forall|a: int| 0 <= a < 4096 ==> self@.ram[a] == if i <= a < i + idx {
                    before.v[a - i]
                } else {
                    before.ram[a]
                },
            decreases x + 1 - idx,
        {
            self.ram[i + idx] = self.v_reg[idx];
            idx += 1;
        }
    }

    /// Copies registers `0..=x` from memory at the index register.
    fn load_registers(&mut self, x: usize)
        requires
            x < 16,
            old(self)@.index + x < 4096,
        ensures
            final(self)@ == old(self)@.registers_loaded(x as int),
    {
        proof {
            use_type_invariant(&*self);
        }
        let i: usize = self.i_reg as usize;
        let ghost before = self@;
        let mut idx: usize = 0;
        while idx <= x
            invariant
                x < 16,
                i + x < 4096,
                i == before.index,
                idx <= x + 1,
                self.sp <= 16,
                before.wf(),
                self@ == (Machine { v: self@.v, ..before }),
                forall|r: int| 0 <= r < 16 ==> self@.v[r] == if r < idx {
                    before.ram[i + r]
                } else {
                    before.v[r]
                },
            decreases x + 1 - idx,
        {
            self.v_reg[idx] = self.ram[i + idx];
            idx += 1;
        }
    }

    /// Puts the lowest pressed key into register `x`, or moves the program
    /// counter back onto the instruction where no key is pressed.
    fn wait_key(&mut self, x: usize)
        requires
            x < 16,
            old(self)@.pc >= 2,
        ensures
            final(self)@ == old(self)@.apply(Instr::WaitKey { x }, 0),
    {
        proof {
            use_type_invariant(&*self);
        }
        let ghost before = self@;
        let mut pressed = false;
        let mut i: usize = 0;
        while i < 16
            invariant_except_break
                i <= 16,
                !pressed,
                self@ == before,
                forall|j: int| 0 <= j < i ==> !before.keys[j],
            invariant
                x < 16,
                self.sp <= 16,
                before.wf(),
            ensures
                pressed ==> any_key(before.keys) && self@ == (Machine {
                    v: before.v.update(x as int, lowest_key(before.keys) as u8),
                    ..before
                }),
                !pressed ==> !any_key(before.keys) && self@ == before,
            decreases 16 - i,
        {
            if self.keys[i] {
                proof {
                    lemma_lowest_key_unique(before.keys, i as int);
                }
                self.v_reg[x] = i as u8;
                pressed = true;
                break;
            }
            i += 1;
        }
        if !pressed {
            self.pc -= 2;
        }
    }

    /// Draws the sprite of `rows` bytes at the index register, positioned by
    /// registers `x` and `y`, and reports a collision in the flag register.
    fn draw(&mut self, x: usize, y: usize, rows: u8)
        requires
            x < 16,
            y < 16,
            rows < 16,
            rows == 0 || old(self)@.index + rows <= 4096,
        ensures
            final(self)@ == old(self)@.drawn(x as int, y as int, rows as int),
    {
        proof {
            use_type_invariant(&*self);
        }
        let x_coord: u16 = self.v_reg[x] as u16;
        let y_coord: u16 = self.v_reg[y] as u16;
        let num_rows: u16 = rows as u16;
        let base: usize = self.i_reg as usize;
        let ghost before = self@;
        let ghost vx = x_coord as int;
        let ghost vy = y_coord as int;
        let mut flipped = false;
        let mut y_line: u16 = 0;
        while y_line < num_rows
            invariant
                num_rows < 16,
                num_rows == 0 || base + num_rows <= 4096,
                base == before.index,
                y_line <= num_rows,
                x_coord < 256,
                y_coord < 256,
                vx == x_coord,
                vy == y_coord,
                self.sp <= 16,
                before.wf(),
                self@ == (Machine { screen: self@.screen, ..before }),
                forall|p: int|
                    0 <= p < 2048 ==> self@.screen[p] == (before.screen[p] != covers_upto(
                        before,
                        vx,
                        vy,
                        y_line as int,
                        0,
                        p,
                    )),
                flipped == collides_upto(before, vx, vy, y_line as int, 0),
            decreases num_rows - y_line,
        {
            let pixels: u8 = self.ram[base + y_line as usize];
            let mut x_line: u16 = 0;
            while x_line < 8
                invariant
                    num_rows < 16,
                    base + num_rows <= 4096,
                    base == before.index,
                    y_line < num_rows,
                    x_line <= 8,
                    x_coord < 256,
                    y_coord < 256,
                    vx == x_coord,
                    vy == y_coord,
                    self.sp <= 16,
                    before.wf(),
                    pixels == before.ram[base + y_line],
                    self@ == (Machine { screen: self@.screen, ..before }),
                    forall|p: int|
                        0 <= p < 2048 ==> self@.screen[p] == (before.screen[p] != covers_upto(
                            before,
                            vx,
                            vy,
                            y_line as int,
                            x_line as int,
                            p,
                        )),
                    flipped == collides_upto(before, vx, vy, y_line as int, x_line as int),
                decreases 8 - x_line,
            {
                proof {
                    lemma_sprite_cell_bounds(vx, vy, y_line as int, x_line as int);
                    lemma_mask(pixels, x_line);
                    lemma_collides_step(before, vx, vy, y_line as int, x_line as int);
                    lemma_not_yet_covered(before, vx, vy, y_line as int, x_line as int);
                }
                if (pixels & (0b1000_0000u8 >> x_line)) != 0 {
                    // wrap around the display edges
                    let px: usize = (y_coord + x_line) as usize % 64;
                    let py: usize = (x_coord + y_line) as usize % 32;
                    let idx: usize = px + 64 * py;
                    let lit: bool = self.screen[idx];
                    flipped = flipped || lit;
                    self.screen[idx] = !lit;
                }
                proof {
                    assert forall|p: int| 0 <= p < 2048 implies self@.screen[p] == (before.screen[p]
                        != covers_upto(before, vx, vy, y_line as int, x_line + 1, p)) by {
                        lemma_covers_step(before, vx, vy, y_line as int, x_line as int, p);
                    }
                }
                x_line += 1;
            }
            proof {
                lemma_collides_row_end(before, vx, vy, y_line as int);
                assert forall|p: int| 0 <= p < 2048 implies self@.screen[p] == (before.screen[p]
                    != covers_upto(before, vx, vy, y_line + 1, 0, p)) by {
                    lemma_covers_row_end(before, vx, vy, y_line as int, p);
                }
            }
            y_line += 1;
        }
        proof {
            lemma_collides_all(before, vx, vy, num_rows as int);
            assert forall|p: int| 0 <= p < 2048 implies self@.screen[p] == (before.screen[p]
                != before.sprite_covers(vx, vy, num_rows as int, p)) by {
                lemma_covers_all(before, vx, vy, num_rows as int, p);
            }
        }
        if flipped {
            self.v_reg[0xF] = 1;
        } else {
            self.v_reg[0xF] = 0;
        }
    }

    /// Executes an instruction that only moves the program counter, the
    /// stack or the whole display.
    fn run_control(&mut self, ins: Instr)
        requires
            ins.wf(),
            is_control(ins),
            old(self)@.instr_fault(ins) is None,
            2 <= old(self)@.pc <= 4096,
        ensures
            final(self)@ == old(self)@.apply(ins, 0),
    {
        proof {
            use_type_invariant(&*self);
        }
        match ins {
            Instr::ClearScreen => {
                self.screen = [false; 2048];
            },
            Instr::Return => {
                let ret_addr: u16 = self.pop();
                proof {
                    use_type_invariant(&*self);
                }
                self.pc = ret_addr;
            },
            Instr::Jump { addr } => {
                self.pc = addr;
            },
            Instr::Call { addr } => {
                self.push(self.pc);
                proof {
                    use_type_invariant(&*self);
                }
                self.pc = addr;
            },
            Instr::SkipEqImm { x, nn } => {
                if self.v_reg[x] == nn {
                    self.pc += 2;
                }
            },
            Instr::SkipNeImm { x, nn } => {
                if self.v_reg[x] != nn {
                    self.pc += 2;
                }
            },
            Instr::SkipEqReg { x, y } => {
                if self.v_reg[x] == self.v_reg[y] {
                    self.pc += 2;
                }
            },
            Instr::SkipNeReg { x, y } => {
                if self.v_reg[x] != self.v_reg[y] {
                    self.pc += 2;
                }
            },
            Instr::JumpOffset { addr } => {
                self.pc = (self.v_reg[0] as u16) + addr;
            },
            Instr::SkipKeyDown { x } => {
                let vx: u8 = self.v_reg[x];
                let key: bool = self.keys[vx as usize];
                if key {
                    self.pc += 2;
                }
            },
            Instr::SkipKeyUp { x } => {
                let vx: u8 = self.v_reg[x];
                let key: bool = self.keys[vx as usize];
                if !key {
                    self.pc += 2;
                }
            },
            _ => {},
        }
    }

    /// Sets register `x` to `value` and then the flag register to `flag`.
    fn set_with_flag(&mut self, x: usize, value: u8, flag: u8)
        requires
            x < 16,
        ensures
            final(self)@ == (Machine {
                v: with_flag(old(self)@.v, x as int, value, flag),
                ..old(self)@
            }),
    {
        proof {
            use_type_invariant(&*self);
        }
        self.v_reg[x] = value;
        self.v_reg[0xF] = flag;
    }

    /// Executes an instruction that computes a register from registers, an
    /// immediate or the random byte `rnd`.
    fn run_arith(&mut self, ins: Instr, rnd: u8)
        requires
            ins.wf(),
            is_arith(ins),
        ensures
            final(self)@ == old(self)@.apply(ins, rnd),
    {
        proof {
            use_type_invariant(&*self);
        }
        match ins {
            Instr::LoadImm { x, nn } => {
                self.v_reg[x] = nn;
            },
            Instr::AddImm { x, nn } => {
                self.v_reg[x] = self.v_reg[x].wrapping_add(nn);
            },
            Instr::Move { x, y } => {
                self.v_reg[x] = self.v_reg[y];
            },
            Instr::Or { x, y } => {
                self.v_reg[x] = self.v_reg[x] | self.v_reg[y];
            },
            Instr::And { x, y } => {
                self.v_reg[x] = self.v_reg[x] & self.v_reg[y];
            },
            Instr::Xor { x, y } => {
                self.v_reg[x] = self.v_reg[x] ^ self.v_reg[y];
            },
            Instr::AddReg { x, y } => {
                let (new_vx, carry) = overflowing_add(self.v_reg[x], self.v_reg[y]);
                let new_vf: u8 = if carry {
                    1
                } else {
                    0
                };
                self.set_with_flag(x, new_vx, new_vf);
            },
            Instr::SubReg { x, y } => {
                let (new_vx, borrow) = overflowing_sub(self.v_reg[x], self.v_reg[y]);
                let new_vf: u8 = if borrow {
                    0
                } else {
                    1
                };
                self.set_with_flag(x, new_vx, new_vf);
            },
            Instr::SubRev { x, y } => {
                let (new_vx, borrow) = overflowing_sub(self.v_reg[y], self.v_reg[x]);
                let new_vf: u8 = if borrow {
                    0
                } else {
                    1
                };
                self.set_with_flag(x, new_vx, new_vf);
            },
            Instr::ShiftRight { x } => {
                let (new_vx, lsb) = shift_right(self.v_reg[x]);
                self.set_with_flag(x, new_vx, lsb);
            },
            Instr::ShiftLeft { x } => {
                let (new_vx, msb) = shift_left(self.v_reg[x]);
                self.set_with_flag(x, new_vx, msb);
            },
            Instr::Random { x, nn } => {
                self.v_reg[x] = rnd & nn;
            },
            _ => {},
        }
    }

    /// Executes one decoded instruction, the program counter having moved
    /// past it already. `rnd` is the byte that `Random` consumes.
    fn run(&mut self, ins: Instr, rnd: u8)
        requires
            ins.wf(),
            old(self)@.instr_fault(ins) is None,
            2 <= old(self)@.pc <= 4096,
        ensures
            final(self)@ == old(self)@.apply(ins, rnd),
    {
        proof {
            use_type_invariant(&*self);
        }
        match ins {
            Instr::Nop => {},
            Instr::Draw { x, y, rows } => {
                self.draw(x, y, rows);
            },
            Instr::LoadDelay { x } => {
                self.v_reg[x] = self.dt;
            },
            Instr::WaitKey { x } => {
                self.wait_key(x);
            },
            Instr::SetDelay { x } => {
                self.dt = self.v_reg[x];
            },
            Instr::SetSound { x } => {
                self.st = self.v_reg[x];
            },
            Instr::AddIndex { x } => {
                let vx: u16 = self.v_reg[x] as u16;
                self.i_reg = self.i_reg.wrapping_add(vx);
            },
            Instr::FontAddr { x } => {
                self.i_reg = (self.v_reg[x] as u16) * 5;
            },
            Instr::Bcd { x } => {
                self.store_bcd(x);
            },
            Instr::Store { x } => {
                self.store_registers(x);
            },
            Instr::Load { x } => {
                self.load_registers(x);
            },
            Instr::LoadImm { .. }
            | Instr::AddImm { .. }
            | Instr::Move { .. }
            | Instr::Or { .. }
            | Instr::And { .. }
            | Instr::Xor { .. }
            | Instr::AddReg { .. }
            | Instr::SubReg { .. }
            | Instr::SubRev { .. }
            | Instr::ShiftRight { .. }
            | Instr::ShiftLeft { .. }
            | Instr::Random { .. } => {
                self.run_arith(ins, rnd);
            },
            Instr::ClearScreen
            | Instr::Return
            | Instr::Jump { .. }
            | Instr::Call { .. }
            | Instr::SkipEqImm { .. }
            | Instr::SkipNeImm { .. }
            | Instr::SkipEqReg { .. }
            | Instr::SkipNeReg { .. }
            | Instr::JumpOffset { .. }
            | Instr::SkipKeyDown { .. }
            | Instr::SkipKeyUp { .. } => {
                self.run_control(ins);
            },
        }
    }

    /// Decodes and executes the instruction word `op`, the program counter
    /// having moved past it already. A random byte is drawn where the
    /// instruction consumes one.
    fn execute(&mut self, op: u16)
        requires
            decode_word(op) is Some,
            old(self)@.instr_fault(decode_word(op)->0) is None,
            2 <= old(self)@.pc <= 4096,
        ensures
            exists|rnd: u8| final(self)@ == #[trigger] old(self)@.apply(decode_word(op)->0, rnd),
            !decode_word(op)->0.is_random() ==> forall|rnd: u8|
                final(self)@ == #[trigger] old(self)@.apply(decode_word(op)->0, rnd),
    {
        match decode(op) {
            Some(ins) => {
                let rnd: u8 = match ins {
                    Instr::Random { .. } => random_byte(),
                    _ => 0,
                };
                self.run(ins, rnd);
                proof {
                    assert forall|r: u8| !ins.is_random() implies self@ == #[trigger] old(
                        self,
                    )@.apply(ins, r) by {
                        lemma_apply_deterministic(old(self)@, ins, r, rnd);
                    }
                }
            },
            None => {},
        }
    }

    /// The fault that the next instruction would raise, if any. Where this
    /// is `None` the machine can take a step.
    pub fn fault(&self) -> (r: Option<Fault>)
        ensures
            r == self@.fault(),
    {
        proof {
            use_type_invariant(self);
        }
        if self.pc >= 4095 {
            return Some(Fault::ProgramCounterOutOfRange);
        }
        let pc: usize = self.pc as usize;
        let op: u16 = ((self.ram[pc] as u16) << 8) | (self.ram[pc + 1] as u16);
        proof {
            lemma_big_endian(self.ram[pc as int], self.ram[pc + 1]);
        }
        let i: usize = self.i_reg as usize;
        match decode(op) {
            None => Some(Fault::Unimplemented { word: op }),
            Some(Instr::Return) => if self.sp == 0 {
                Some(Fault::StackUnderflow)
            } else {
                None
            },
            Some(Instr::Call { .. }) => if self.sp >= 16 {
                Some(Fault::StackOverflow)
            } else {
                None
            },
            Some(Instr::Draw { rows, .. }) => if rows > 0 && i + rows as usize > 4096 {
                Some(Fault::AddressOutOfRange)
            } else {
                None
            },
            Some(Instr::SkipKeyDown { x }) | Some(Instr::SkipKeyUp { x }) => if self.v_reg[x]
                >= 16 {
                Some(Fault::KeyOutOfRange)
            } else {
                None
            },
            Some(Instr::Bcd { .. }) => if i + 2 >= 4096 {
                Some(Fault::AddressOutOfRange)
            } else {
                None
            },
            Some(Instr::Store { x }) | Some(Instr::Load { x }) => if i + x >= 4096 {
                Some(Fault::AddressOutOfRange)
            } else {
                None
            },
            Some(_) => None,
        }
    }

    /// Fetches and executes one instruction, with `rnd` as the random byte
    /// should the instruction consume one.
    pub fn tick_with(&mut self, rnd: u8)
        requires
            old(self)@.fault() is None,
        ensures
            final(self)@ == old(self)@.step(rnd),
            final(self)@.wf(),
    {
        let op: u16 = self.fetch();
        match decode(op) {
            Some(ins) => {
                self.run(ins, rnd);
            },
            None => {},
        }
    }

    /// Fetches and executes one instruction. The result is that of
    /// [`Emu::tick_with`] for some random byte, and for every byte where the
    /// instruction consumes none.
    pub fn tick(&mut self)
        requires
            old(self)@.fault() is None,
        ensures
            exists|rnd: u8| final(self)@ == #[trigger] old(self)@.step(rnd),
            !(old(self)@.next_instr() matches Some(ins) && ins.is_random()) ==> forall|rnd: u8|
                final(self)@ == #[trigger] old(self)@.step(rnd),
            final(self)@.wf(),
    {
        let op: u16 = self.fetch();
        let ghost fetched = self@;
        self.execute(op);
        proof {
            let ins = decode_word(op)->0;
            let rnd = choose|rnd: u8| self@ == #[trigger] fetched.apply(ins, rnd);
            assert(self@ == old(self)@.step(rnd));
            if !ins.is_random() {
                assert forall|r: u8| self@ == #[trigger] old(self)@.step(r) by {
                    assert(self@ == fetched.apply(ins, r));
                }
            }
        }
    }

    /// Takes a step where the machine can, and reports the fault where it
    /// cannot; the machine is then left as it was.
    pub fn try_tick(&mut self) -> (r: Result<(), Fault>)
        ensures
            match old(self)@.fault() {
                Some(f) => r == Err::<(), Fault>(f) && final(self)@ == old(self)@,
                None => r is Ok && exists|rnd: u8| final(self)@ == #[trigger] old(self)@.step(rnd),
            },
            !(old(self)@.next_instr() matches Some(ins) && ins.is_random()) ==> forall|rnd: u8|
                old(self)@.fault() is None ==> final(self)@ == #[trigger] old(self)@.step(rnd),
            final(self)@.wf(),
    {
        match self.fault() {
            Some(f) => Err(f),
            None => {
                self.tick();
                Ok(())
            },
        }
    }
}

/// Shifting the high byte up and or-ing the low byte in joins the two bytes
/// into the word whose value is `256 * high + low`.
proof fn lemma_big_endian(high: u8, low: u8)
    ensures
        ((high as u16) << 8) | (low as u16) == high as int * 0x100 + low,
{
    assert(((high as u16) << 8) | (low as u16) == (high as u16) * 0x100 + (low as u16))
        by (bit_vector);
}


/// Whether the sprite bit at (`row`, `col`) comes before (`r`, `c`) in the
/// order in which a sprite is drawn: row by row, each row left to right.
spec fn drawn_before(row: int, col: int, r: int, c: int) -> bool {
    0 <= row && 0 <= col < 8 && (row < r || (row == r && col < c))
}

/// Whether a set sprite bit that comes before (`r`, `c`) lands on cell `p`.
spec fn covers_upto(m: Machine, vx: int, vy: int, r: int, c: int, p: int) -> bool {
    exists|row: int, col: int|
        drawn_before(row, col, r, c) && #[trigger] sprite_bit(m.ram, m.index as int, row, col)
            && sprite_cell(vx, vy, row, col) == p
}

/// Whether a set sprite bit that comes before (`r`, `c`) lands on a cell that
/// is on.
spec fn collides_upto(m: Machine, vx: int, vy: int, r: int, c: int) -> bool {
    exists|row: int, col: int|
        drawn_before(row, col, r, c) && #[trigger] sprite_bit(m.ram, m.index as int, row, col)
            && m.screen[sprite_cell(vx, vy, row, col)]
}

/// The mask that the drawing loop tests selects the bit that the model names.
proof fn lemma_mask(pixels: u8, x_line: u16)
    requires
        x_line < 8,
    ensures
        ((pixels & (0b1000_0000u8 >> x_line)) != 0) == bit_msb_first(pixels, x_line as int),
{
    assert(x_line < 8 ==> (0b1000_0000u8 >> x_line) == (0x80u8 >> (x_line as u8)))
        by (bit_vector);
}

/// Taking the bit at (`r`, `c`) into account adds its cell to the covered
/// ones where the bit is set, and nothing else.
proof fn lemma_covers_step(m: Machine, vx: int, vy: int, r: int, c: int, p: int)
    requires
        0 <= r,
        0 <= c < 8,
    ensures
        covers_upto(m, vx, vy, r, c + 1, p) == (covers_upto(m, vx, vy, r, c, p) || (sprite_bit(
            m.ram,
            m.index as int,
            r,
            c,
        ) && sprite_cell(vx, vy, r, c) == p)),
{
    if covers_upto(m, vx, vy, r, c + 1, p) {
        let (row, col) = choose|row: int, col: int|
            drawn_before(row, col, r, c + 1) && #[trigger] sprite_bit(
                m.ram,
                m.index as int,
                row,
                col,
            ) && sprite_cell(vx, vy, row, col) == p;
        if !(row == r && col == c) {
            assert(drawn_before(row, col, r, c));
        }
    }
    if covers_upto(m, vx, vy, r, c, p) {
        let (row, col) = choose|row: int, col: int|
            drawn_before(row, col, r, c) && #[trigger] sprite_bit(
                m.ram,
                m.index as int,
                row,
                col,
            ) && sprite_cell(vx, vy, row, col) == p;
        assert(drawn_before(row, col, r, c + 1));
    }
    if sprite_bit(m.ram, m.index as int, r, c) && sprite_cell(vx, vy, r, c) == p {
        assert(drawn_before(r, c, r, c + 1));
    }
}

/// Taking the bit at (`r`, `c`) into account adds a collision where the bit
/// is set and lands on a cell that is on.
proof fn lemma_collides_step(m: Machine, vx: int, vy: int, r: int, c: int)
    requires
        0 <= r,
        0 <= c < 8,
    ensures
        collides_upto(m, vx, vy, r, c + 1) == (collides_upto(m, vx, vy, r, c) || (sprite_bit(
            m.ram,
            m.index as int,
            r,
            c,
        ) && m.screen[sprite_cell(vx, vy, r, c)])),
{
    if collides_upto(m, vx, vy, r, c + 1) {
        let (row, col) = choose|row: int, col: int|
            drawn_before(row, col, r, c + 1) && #[trigger] sprite_bit(
                m.ram,
                m.index as int,
                row,
                col,
            ) && m.screen[sprite_cell(vx, vy, row, col)];
        if !(row == r && col == c) {
            assert(drawn_before(row, col, r, c));
        }
    }
    if collides_upto(m, vx, vy, r, c) {
        let (row, col) = choose|row: int, col: int|
            drawn_before(row, col, r, c) && #[trigger] sprite_bit(
                m.ram,
                m.index as int,
                row,
                col,
            ) && m.screen[sprite_cell(vx, vy, row, col)];
        assert(drawn_before(row, col, r, c + 1));
    }
    if sprite_bit(m.ram, m.index as int, r, c) && m.screen[sprite_cell(vx, vy, r, c)] {
        assert(drawn_before(r, c, r, c + 1));
    }
}

/// No earlier bit of the sprite lands on the cell of the bit at (`r`, `c`).
proof fn lemma_not_yet_covered(m: Machine, vx: int, vy: int, r: int, c: int)
    requires
        0 <= vx,
        0 <= vy,
        0 <= r < 16,
        0 <= c < 8,
    ensures
        !covers_upto(m, vx, vy, r, c, sprite_cell(vx, vy, r, c)),
{
    if covers_upto(m, vx, vy, r, c, sprite_cell(vx, vy, r, c)) {
        let (row, col) = choose|row: int, col: int|
            drawn_before(row, col, r, c) && #[trigger] sprite_bit(
                m.ram,
                m.index as int,
                row,
                col,
            ) && sprite_cell(vx, vy, row, col) == sprite_cell(vx, vy, r, c);
        lemma_sprite_cell_injective(vx, vy, row, col, r, c);
    }
}

/// The end of one row is the start of the next.
proof fn lemma_covers_row_end(m: Machine, vx: int, vy: int, r: int, p: int)
    ensures
        covers_upto(m, vx, vy, r, 8, p) == covers_upto(m, vx, vy, r + 1, 0, p),
{
    if covers_upto(m, vx, vy, r, 8, p) {
        let (row, col) = choose|row: int, col: int|
            drawn_before(row, col, r, 8) && #[trigger] sprite_bit(
                m.ram,
                m.index as int,
                row,
                col,
            ) && sprite_cell(vx, vy, row, col) == p;
        assert(drawn_before(row, col, r + 1, 0));
    }
    if covers_upto(m, vx, vy, r + 1, 0, p) {
        let (row, col) = choose|row: int, col: int|
            drawn_before(row, col, r + 1, 0) && #[trigger] sprite_bit(
                m.ram,
                m.index as int,
                row,
                col,
            ) && sprite_cell(vx, vy, row, col) == p;
        assert(drawn_before(row, col, r, 8));
    }
}

/// The end of one row is the start of the next.
proof fn lemma_collides_row_end(m: Machine, vx: int, vy: int, r: int)
    ensures
        collides_upto(m, vx, vy, r, 8) == collides_upto(m, vx, vy, r + 1, 0),
{
    if collides_upto(m, vx, vy, r, 8) {
        let (row, col) = choose|row: int, col: int|
            drawn_before(row, col, r, 8) && #[trigger] sprite_bit(
                m.ram,
                m.index as int,
                row,
                col,
            ) && m.screen[sprite_cell(vx, vy, row, col)];
        assert(drawn_before(row, col, r + 1, 0));
    }
    if collides_upto(m, vx, vy, r + 1, 0) {
        let (row, col) = choose|row: int, col: int|
            drawn_before(row, col, r + 1, 0) && #[trigger] sprite_bit(
                m.ram,
                m.index as int,
                row,
                col,
            ) && m.screen[sprite_cell(vx, vy, row, col)];
        assert(drawn_before(row, col, r, 8));
    }
}

/// Once every row is done, the covered cells are those of the whole sprite.
proof fn lemma_covers_all(m: Machine, vx: int, vy: int, rows: int, p: int)
    ensures
        covers_upto(m, vx, vy, rows, 0, p) == m.sprite_covers(vx, vy, rows, p),
{
    if covers_upto(m, vx, vy, rows, 0, p) {
        let (row, col) = choose|row: int, col: int|
            drawn_before(row, col, rows, 0) && #[trigger] sprite_bit(
                m.ram,
                m.index as int,
                row,
                col,
            ) && sprite_cell(vx, vy, row, col) == p;
        assert(0 <= row < rows && 0 <= col < 8);
    }
    if m.sprite_covers(vx, vy, rows, p) {
        let (row, col) = choose|row: int, col: int|
            0 <= row < rows && 0 <= col < 8 && #[trigger] sprite_bit(
                m.ram,
                m.index as int,
                row,
                col,
            ) && sprite_cell(vx, vy, row, col) == p;
        assert(drawn_before(row, col, rows, 0));
    }
}

/// Once every row is done, the collisions are those of the whole sprite.
proof fn lemma_collides_all(m: Machine, vx: int, vy: int, rows: int)
    ensures
        collides_upto(m, vx, vy, rows, 0) == m.sprite_collides(vx, vy, rows),
{
    if collides_upto(m, vx, vy, rows, 0) {
        let (row, col) = choose|row: int, col: int|
            drawn_before(row, col, rows, 0) && #[trigger] sprite_bit(
                m.ram,
                m.index as int,
                row,
                col,
            ) && m.screen[sprite_cell(vx, vy, row, col)];
        assert(0 <= row < rows && 0 <= col < 8);
    }
    if m.sprite_collides(vx, vy, rows) {
        let (row, col) = choose|row: int, col: int|
            0 <= row < rows && 0 <= col < 8 && #[trigger] sprite_bit(
                m.ram,
                m.index as int,
                row,
                col,
            ) && m.screen[sprite_cell(vx, vy, row, col)];
        assert(drawn_before(row, col, rows, 0));
    }
}


/// A byte shifted right by one bit, and the bit shifted out.
fn shift_right(b: u8) -> (r: (u8, u8))
    ensures
        r.0 == b / 2,
        r.1 == b % 2,
{
    let lsb: u8 = b & 1;
    let half: u8 = b >> 1;
    proof {
        assert(b & 1 == b % 2) by (bit_vector);
        assert(b >> 1 == b / 2) by (bit_vector);
    }
    (half, lsb)
}

/// A byte shifted left by one bit, and the bit shifted out.
fn shift_left(b: u8) -> (r: (u8, u8))
    ensures
        r.0 == (b * 2) % 256,
        r.1 == b / 128,
{
    let msb: u8 = (b >> 7) & 1;
    let twice: u8 = b << 1;
    proof {
        assert((b >> 7) & 1 == b / 128) by (bit_vector);
        assert(b << 1 == (b * 2) % 256) by (bit_vector);
    }
    (twice, msb)
}


/// The instructions that only move the program counter, the stack or the
/// whole display.
spec fn is_control(ins: Instr) -> bool {
    match ins {
        Instr::ClearScreen
        | Instr::Return
        | Instr::Jump { .. }
        | Instr::Call { .. }
        | Instr::SkipEqImm { .. }
        | Instr::SkipNeImm { .. }
        | Instr::SkipEqReg { .. }
        | Instr::SkipNeReg { .. }
        | Instr::JumpOffset { .. }
        | Instr::SkipKeyDown { .. }
        | Instr::SkipKeyUp { .. } => true,
        _ => false,
    }
}

/// The instructions that compute a register from registers, an immediate or
/// a random byte.
spec fn is_arith(ins: Instr) -> bool {
    match ins {
        Instr::LoadImm { .. }
        | Instr::AddImm { .. }
        | Instr::Move { .. }
        | Instr::Or { .. }
        | Instr::And { .. }
        | Instr::Xor { .. }
        | Instr::AddReg { .. }
        | Instr::SubReg { .. }
        | Instr::SubRev { .. }
        | Instr::ShiftRight { .. }
        | Instr::ShiftLeft { .. }
        | Instr::Random { .. } => true,
        _ => false,
    }
}


/// The sum of two bytes modulo 256, and whether the true sum exceeds a byte.
fn overflowing_add(a: u8, b: u8) -> (r: (u8, bool))
    ensures
        r.0 == (a + b) % 256,
        r.1 == (a + b > 255),
{
    let sum: u8 = a.wrapping_add(b);
    (sum, sum < a)
}

/// The difference of two bytes modulo 256, and whether a borrow occurred.
fn overflowing_sub(a: u8, b: u8) -> (r: (u8, bool))
    ensures
        r.0 == (a - b) % 256,
        r.1 == (a < b),
{
    (a.wrapping_sub(b), a < b)
}

} // verus!
