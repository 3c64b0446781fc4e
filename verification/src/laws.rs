//! Laws of the machine, proved of the model in [`crate::machine`]. The
//! executable machine follows the model step by step, so each law holds of
//! it too.

use crate::font::glyph_row;
use crate::instr::Instr;
use crate::machine::{
    any_key, font_loaded, is_lowest_key, lemma_lowest_key_unique, lemma_sprite_cell_bounds,
    sprite_bit, sprite_cell, Fault, Machine,
};
use vstd::prelude::*;

verus! {

/// Whether `ins` is one of the six instructions that may skip the next one.
pub open spec fn is_skip(ins: Instr) -> bool {
    match ins {
        Instr::SkipEqImm { .. }
        | Instr::SkipNeImm { .. }
        | Instr::SkipEqReg { .. }
        | Instr::SkipNeReg { .. }
        | Instr::SkipKeyDown { .. }
        | Instr::SkipKeyUp { .. } => true,
        _ => false,
    }
}

/// The condition on which the skip instruction `ins` skips in state `s`.
pub open spec fn skip_condition(s: Machine, ins: Instr) -> bool {
    match ins {
        Instr::SkipEqImm { x, nn } => s.v[x as int] == nn,
        Instr::SkipNeImm { x, nn } => s.v[x as int] != nn,
        Instr::SkipEqReg { x, y } => s.v[x as int] == s.v[y as int],
        Instr::SkipNeReg { x, y } => s.v[x as int] != s.v[y as int],
        Instr::SkipKeyDown { x } => s.keys[s.v[x as int] as int],
        Instr::SkipKeyUp { x } => !s.keys[s.v[x as int] as int],
        _ => false,
    }
}

/// The state `s` with its program counter moved forward by `by` bytes.
pub open spec fn moved(s: Machine, by: int) -> Machine {
    Machine { pc: (s.pc + by) as u16, ..s }
}

/// The state after one step for each byte of `rnds`, in order.
pub open spec fn run_steps(s: Machine, rnds: Seq<u8>) -> Machine
    decreases rnds.len(),
{
    if rnds.len() == 0 {
        s
    } else {
        run_steps(s, rnds.drop_last()).step(rnds.last())
    }
}

/// Whether every display cell is off.
pub open spec fn blank(screen: Seq<bool>) -> bool {
    forall|p: int| 0 <= p < screen.len() ==> !screen[p]
}

/// Whether the sprite of `rows` bytes at the index register has a set bit.
pub open spec fn sprite_nonempty(s: Machine, rows: int) -> bool {
    exists|row: int, col: int|
        0 <= row < rows && 0 <= col < 8 && #[trigger] sprite_bit(
            s.ram,
            s.index as int,
            row,
            col,
        )
}

/// A step takes a well-formed state to a well-formed state: every component
/// keeps its size and the stack stays within its sixteen entries.
pub proof fn lemma_step_wf(s: Machine, rnd: u8)
    requires
        s.wf(),
        s.fault() is None,
    ensures
        s.step(rnd).wf(),
{
}

/// Determinism: the state and the instruction word fix the resulting state.
/// The random byte has a say only where the instruction is `Random`.
pub proof fn lemma_step_deterministic(s: Machine, rnd1: u8, rnd2: u8)
    requires
        !(s.next_instr() matches Some(ins) && ins.is_random()),
    ensures
        s.step(rnd1) == s.step(rnd2),
{
}

/// Executing an instruction other than `Random` does not depend on the
/// random byte.
pub proof fn lemma_apply_deterministic(s: Machine, ins: Instr, rnd1: u8, rnd2: u8)
    requires
        !ins.is_random(),
    ensures
        s.apply(ins, rnd1) == s.apply(ins, rnd2),
{
}

/// A skip instruction changes nothing but the program counter, which moves
/// by four bytes where the condition holds and by two where it does not.
pub proof fn lemma_skip_moves_only_pc(s: Machine, rnd: u8)
    requires
        s.wf(),
        s.fault() is None,
        s.next_instr() matches Some(ins) && is_skip(ins),
    ensures
        s.step(rnd) == moved(
            s,
            if skip_condition(s, s.next_instr()->0) {
                4
            } else {
                2
            },
        ),
{
}

/// Skip correctness. Where the condition holds, the instruction after the
/// skip has no effect at all: the two steps from `s` give what the
/// instruction two places on does to the untouched state. Where it does not
/// hold, they give what the instruction after the skip does to it.
pub proof fn lemma_skip_bypasses_next(s: Machine, rnd1: u8, rnd2: u8)
    requires
        s.wf(),
        s.fault() is None,
        s.next_instr() matches Some(ins) && is_skip(ins),
    ensures
        skip_condition(s, s.next_instr()->0) ==> s.step(rnd1).step(rnd2) == moved(s, 4).step(
            rnd2,
        ),
        !skip_condition(s, s.next_instr()->0) ==> s.step(rnd1).step(rnd2) == moved(s, 2).step(
            rnd2,
        ),
{
    lemma_skip_moves_only_pc(s, rnd1);
}

/// Drawing the same sprite twice at the same place on a blank display: the
/// first draw reports no collision and the second one does, and the display
/// is blank again afterwards. The sprite has a set bit, and the second draw
/// finds the coordinate registers as the first one did.
pub proof fn lemma_draw_twice(s: Machine, x: usize, y: usize, rows: u8, rnd1: u8, rnd2: u8)
    requires
        s.wf(),
        x < 16,
        y < 16,
        rows < 16,
        blank(s.screen),
        sprite_nonempty(s, rows as int),
        s.apply(Instr::Draw { x, y, rows }, rnd1).v[x as int] == s.v[x as int],
        s.apply(Instr::Draw { x, y, rows }, rnd1).v[y as int] == s.v[y as int],
    ensures
        ({
            let once = s.apply(Instr::Draw { x, y, rows }, rnd1);
            let twice = once.apply(Instr::Draw { x, y, rows }, rnd2);
            &&& once.v[0xF] == 0
            &&& twice.v[0xF] == 1
            &&& blank(twice.screen)
            &&& twice.screen == s.screen
        }),
{
    let vx = s.v[x as int] as int;
    let vy = s.v[y as int] as int;
    let n = rows as int;
    let once = s.apply(Instr::Draw { x, y, rows }, rnd1);
    let twice = once.apply(Instr::Draw { x, y, rows }, rnd2);
    // Nothing is on, so nothing collides.
    assert(!s.sprite_collides(vx, vy, n)) by {
        if s.sprite_collides(vx, vy, n) {
            let (row, col) = choose|row: int, col: int|
                0 <= row < n && 0 <= col < 8 && #[trigger] sprite_bit(
                    s.ram,
                    s.index as int,
                    row,
                    col,
                ) && s.screen[sprite_cell(vx, vy, row, col)];
            lemma_sprite_cell_bounds(vx, vy, row, col);
        }
    }
    // After the first draw a cell is on exactly where the sprite covers it.
    assert forall|p: int| 0 <= p < 2048 implies once.screen[p] == s.sprite_covers(
        vx,
        vy,
        n,
        p,
    ) by {}
    // The second draw covers the same cells.
    assert forall|p: int| 0 <= p < 2048 implies once.sprite_covers(vx, vy, n, p)
        == s.sprite_covers(vx, vy, n, p) by {
        if once.sprite_covers(vx, vy, n, p) {
            let (row, col) = choose|row: int, col: int|
                0 <= row < n && 0 <= col < 8 && #[trigger] sprite_bit(
                    once.ram,
                    once.index as int,
                    row,
                    col,
                ) && sprite_cell(vx, vy, row, col) == p;
            assert(sprite_bit(s.ram, s.index as int, row, col));
        }
        if s.sprite_covers(vx, vy, n, p) {
            let (row, col) = choose|row: int, col: int|
                0 <= row < n && 0 <= col < 8 && #[trigger] sprite_bit(
                    s.ram,
                    s.index as int,
                    row,
                    col,
                ) && sprite_cell(vx, vy, row, col) == p;
            assert(sprite_bit(once.ram, once.index as int, row, col));
        }
    }
    // The set bit that the sprite has lands on a cell that is now on.
    assert(once.sprite_collides(vx, vy, n)) by {
        let (row, col) = choose|row: int, col: int|
            0 <= row < n && 0 <= col < 8 && #[trigger] sprite_bit(
                s.ram,
                s.index as int,
                row,
                col,
            );
        lemma_sprite_cell_bounds(vx, vy, row, col);
        let p = sprite_cell(vx, vy, row, col);
        assert(s.sprite_covers(vx, vy, n, p));
        assert(once.screen[p]);
        assert(sprite_bit(once.ram, once.index as int, row, col));
    }
    assert(twice.screen =~= s.screen);
}

/// Construction and loading leave the font at the base of memory.
pub proof fn lemma_font_survives_load(s: Machine, bytes: Seq<u8>)
    ensures
        font_loaded(Machine::initial().ram),
        s.wf() && font_loaded(s.ram) ==> font_loaded(s.loaded(bytes).ram),
{
}

/// Font addressing: the glyph instruction points the index register at five
/// times the digit, and the five bytes from there on are the digit's glyph.
pub proof fn lemma_font_addressing(s: Machine, x: usize, rnd: u8, row: int)
    requires
        s.wf(),
        x < 16,
        font_loaded(s.ram),
        s.v[x as int] < 16,
        0 <= row < 5,
    ensures
        ({
            let t = s.apply(Instr::FontAddr { x }, rnd);
            &&& t.index == 5 * s.v[x as int]
            &&& t.ram[t.index + row] == glyph_row(s.v[x as int] as int, row)
        }),
{
    let t = s.apply(Instr::FontAddr { x }, rnd);
    let k = 5 * s.v[x as int] + row;
    assert(s.ram[k] == crate::font::FONTSET@[k]);
}

/// The glyph instruction multiplies by five whatever the register holds.
pub proof fn lemma_font_index(s: Machine, x: usize, rnd: u8)
    requires
        s.wf(),
        x < 16,
    ensures
        s.apply(Instr::FontAddr { x }, rnd).index == 5 * s.v[x as int],
{
}

/// Waiting for a key with no key pressed changes nothing, however often the
/// machine steps: the program counter stays on the instruction.
pub proof fn lemma_wait_key_idle(s: Machine, rnds: Seq<u8>)
    requires
        s.wf(),
        s.next_instr() matches Some(ins) && ins is WaitKey,
        !any_key(s.keys),
    ensures
        run_steps(s, rnds) == s,
    decreases rnds.len(),
{
    if rnds.len() > 0 {
        lemma_wait_key_idle(s, rnds.drop_last());
        assert(s.step(rnds.last()) =~= s);
    }
}

/// Waiting for a key with a key pressed moves past the instruction and puts
/// the lowest pressed key into the register.
pub proof fn lemma_wait_key_pressed(s: Machine, rnd: u8, k: int)
    requires
        s.wf(),
        s.next_instr() matches Some(ins) && ins is WaitKey,
        is_lowest_key(s.keys, k),
    ensures
        s.step(rnd) == (Machine {
            pc: (s.pc + 2) as u16,
            v: s.v.update(s.next_instr()->0->WaitKey_x as int, k as u8),
            ..s
        }),
{
    lemma_lowest_key_unique(s.keys, k);
}

/// The stack boundary: a call goes through exactly while fewer than sixteen
/// return addresses are on the stack, and deepens it by one; a return goes
/// through exactly while the stack is not empty, and shortens it by one.
pub proof fn lemma_stack_boundary(s: Machine, rnd: u8)
    requires
        s.wf(),
        s.next_instr() is Some,
    ensures
        s.next_instr()->0 is Call ==> {
            &&& s.stack.len() < 16 ==> s.fault() is None && s.step(rnd).stack.len()
                == s.stack.len() + 1
            &&& s.stack.len() == 16 ==> s.fault() == Some(Fault::StackOverflow)
        },
        s.next_instr()->0 is Return ==> {
            &&& s.stack.len() > 0 ==> s.fault() is None && s.step(rnd).stack.len()
                == s.stack.len() - 1
            &&& s.stack.len() == 0 ==> s.fault() == Some(Fault::StackUnderflow)
        },
{
}

/// Instructions leave the timers alone, but for the two that set them.
pub proof fn lemma_timers_untouched(s: Machine, ins: Instr, rnd: u8)
    ensures
        !(ins is SetDelay) ==> s.apply(ins, rnd).delay == s.delay,
        !(ins is SetSound) ==> s.apply(ins, rnd).sound == s.sound,
{
}

} // verus!
