//! Laws of the instruction set, proved of the model in [`crate::machine`].
//!
//! Each law speaks of a machine that is about to fetch a given instruction
//! word, and of the machine that [`Machine::step`] makes of it.

use crate::display::{draw_sprite, lemma_draw_twice_restores, toggles};
use crate::font::{font_table, glyph, glyph_address};
use crate::instruction::{
    decode_word, lemma_decode_alu, lemma_decode_compare, lemma_decode_draw, lemma_decode_fixed,
    lemma_decode_misc, lemma_decode_nnn, lemma_decode_xkk, lemma_decoded_is_wf, word_nnn,
    word_xkk, word_xyn, Instruction,
};
use crate::machine::{is_lowest_down, lowest_down, Machine};
use vstd::prelude::*;

verus! {

/// Whether the machine is well formed and the word it fetches next is `word`.
pub open spec fn about_to_run(m: Machine, word: int) -> bool {
    &&& m.wf()
    &&& m.can_fetch()
    &&& m.word_at_pc() == word
}

/// A step that fetches the encoding of `instr` performs `instr` on the
/// machine that the fetch leaves.
proof fn lemma_step_performs(m: Machine, instr: Instruction, random: u8)
    requires
        m.can_fetch(),
        decode_word(m.word_at_pc()) == Some(instr),
    ensures
        m.step(random) == m.fetched().perform(instr, random),
{
}

/// A step changes none of the sizes that make a machine well formed.
pub proof fn lemma_step_keeps_wf(m: Machine, random: u8)
    requires
        m.wf(),
    ensures
        m.step(random).0.wf(),
{
    if m.can_fetch() {
        let f: Machine = m.fetched();
        match decode_word(m.word_at_pc()) {
            Some(instr) => {
                lemma_decoded_is_wf(m.word_at_pc());
                if f.fault(instr) is None {
                    assert(f.apply(instr, random).wf());
                }
            },
            None => {},
        }
    }
}

/// Only `Cxkk` looks at the random byte: for every other word the step is
/// the same whatever byte is supplied.
pub proof fn lemma_random_byte_only_for_cxkk(m: Machine, r1: u8, r2: u8)
    requires
        !m.draws_random(),
    ensures
        m.step(r1) == m.step(r2),
{
}

/// `6xkk` sets `Vx` to `kk` whatever it held, leaves the other registers
/// alone and moves on to the next instruction.
pub proof fn lemma_load_immediate(m: Machine, x: u8, kk: u8, random: u8)
    requires
        x < 16,
        about_to_run(m, word_xkk(0x6, x as int, kk as int)),
    ensures
        m.step(random).1 is Ok,
        m.step(random).0.v(x) == kk,
        forall|other: u8| other < 16 && other != x ==> m.step(random).0.v(other) == m.v(other),
        m.step(random).0.pc == m.pc + 2,
{
    lemma_decode_xkk(x, kk);
    lemma_step_performs(m, Instruction::LoadImm { x, kk }, random);
}

/// `8xy4` sets `VF` to 1 if `Vx + Vy` does not fit in a byte and to 0 if it
/// does; unless `Vx` is `VF` itself, `Vx` becomes the sum modulo 256.
pub proof fn lemma_add_sets_carry(m: Machine, x: u8, y: u8, random: u8)
    requires
        x < 16,
        y < 16,
        about_to_run(m, word_xyn(0x8, x as int, y as int, 0x4)),
    ensures
        m.step(random).1 is Ok,
        m.step(random).0.v(15) == (if m.v(x) + m.v(y) >= 256 { 1u8 } else { 0u8 }),
        x != 15 ==> m.step(random).0.v(x) == (m.v(x) + m.v(y)) % 256,
{
    lemma_decode_alu(x, y);
    lemma_step_performs(m, Instruction::AddReg { x, y }, random);
}

/// `8xy5` sets `VF` to 1 if `Vx >= Vy`, so that nothing is borrowed, and to 0
/// otherwise; unless `Vx` is `VF` itself, `Vx` becomes the difference modulo
/// 256.
pub proof fn lemma_sub_sets_no_borrow(m: Machine, x: u8, y: u8, random: u8)
    requires
        x < 16,
        y < 16,
        about_to_run(m, word_xyn(0x8, x as int, y as int, 0x5)),
    ensures
        m.step(random).1 is Ok,
        m.step(random).0.v(15) == (if m.v(x) >= m.v(y) { 1u8 } else { 0u8 }),
        x != 15 ==> m.step(random).0.v(x) == (m.v(x) - m.v(y)) % 256,
{
    lemma_decode_alu(x, y);
    lemma_step_performs(m, Instruction::SubReg { x, y }, random);
}

/// `3xkk` moves the program counter on by 4 if `Vx == kk` and by 2 if not.
pub proof fn lemma_skip_eq_imm(m: Machine, x: u8, kk: u8, random: u8)
    requires
        x < 16,
        about_to_run(m, word_xkk(0x3, x as int, kk as int)),
    ensures
        m.step(random).1 is Ok,
        m.step(random).0.pc == m.pc + (if m.v(x) == kk { 4int } else { 2int }),
{
    lemma_decode_xkk(x, kk);
    lemma_step_performs(m, Instruction::SkipEqImm { x, kk }, random);
}

/// `4xkk` moves the program counter on by 4 if `Vx != kk` and by 2 if not.
pub proof fn lemma_skip_ne_imm(m: Machine, x: u8, kk: u8, random: u8)
    requires
        x < 16,
        about_to_run(m, word_xkk(0x4, x as int, kk as int)),
    ensures
        m.step(random).1 is Ok,
        m.step(random).0.pc == m.pc + (if m.v(x) != kk { 4int } else { 2int }),
{
    lemma_decode_xkk(x, kk);
    lemma_step_performs(m, Instruction::SkipNeImm { x, kk }, random);
}

/// `5xy0` moves the program counter on by 4 if `Vx == Vy` and by 2 if not.
pub proof fn lemma_skip_eq_reg(m: Machine, x: u8, y: u8, random: u8)
    requires
        x < 16,
        y < 16,
        about_to_run(m, word_xyn(0x5, x as int, y as int, 0)),
    ensures
        m.step(random).1 is Ok,
        m.step(random).0.pc == m.pc + (if m.v(x) == m.v(y) { 4int } else { 2int }),
{
    lemma_decode_compare(x, y);
    lemma_step_performs(m, Instruction::SkipEqReg { x, y }, random);
}

/// `9xy0` moves the program counter on by 4 if `Vx != Vy` and by 2 if not.
pub proof fn lemma_skip_ne_reg(m: Machine, x: u8, y: u8, random: u8)
    requires
        x < 16,
        y < 16,
        about_to_run(m, word_xyn(0x9, x as int, y as int, 0)),
    ensures
        m.step(random).1 is Ok,
        m.step(random).0.pc == m.pc + (if m.v(x) != m.v(y) { 4int } else { 2int }),
{
    lemma_decode_compare(x, y);
    lemma_step_performs(m, Instruction::SkipNeReg { x, y }, random);
}

/// `2nnn` with room on the stack puts the address of the next instruction
/// on the stack and goes to `nnn`.
pub proof fn lemma_call(m: Machine, nnn: u16, random: u8)
    requires
        nnn < 4096,
        about_to_run(m, word_nnn(0x2, nnn as int)),
        m.stack.len() < 16,
    ensures
        m.step(random).1 is Ok,
        m.step(random).0 == (Machine {
            opcode: m.word_at_pc(),
            pc: nnn,
            stack: m.stack.push((m.pc + 2) as u16),
            ..m
        }),
{
    lemma_decode_nnn(nnn);
    lemma_step_performs(m, Instruction::Call { addr: nnn }, random);
}

/// `00EE` with a return address on the stack takes it off and goes there.
pub proof fn lemma_return(m: Machine, random: u8)
    requires
        about_to_run(m, 0x00EE),
        m.stack.len() > 0,
    ensures
        m.step(random).1 is Ok,
        m.step(random).0 == (Machine {
            opcode: 0x00EE,
            pc: m.stack.last(),
            stack: m.stack.drop_last(),
            ..m
        }),
{
    lemma_decode_fixed();
    lemma_step_performs(m, Instruction::Return, random);
}

/// A call `2nnn` to a subroutine that returns at once with `00EE` comes back
/// to the instruction after the call, with the call stack as it was. In
/// between the stack is one deeper and the program counter is `nnn`.
pub proof fn lemma_call_then_return(m: Machine, nnn: u16, r1: u8, r2: u8)
    requires
        nnn < 4095,
        about_to_run(m, word_nnn(0x2, nnn as int)),
        m.stack.len() < 16,
        m.memory[nnn as int] == 0x00,
        m.memory[nnn + 1] == 0xEE,
    ensures
        ({
            let called: Machine = m.step(r1).0;
            let returned: Machine = called.step(r2).0;
            &&& m.step(r1).1 is Ok
            &&& called.pc == nnn
            &&& called.stack.len() == m.stack.len() + 1
            &&& called.step(r2).1 is Ok
            &&& returned.pc == m.pc + 2
            &&& returned.stack == m.stack
            &&& returned == (Machine { opcode: 0x00EE, pc: (m.pc + 2) as u16, ..m })
        }),
{
    lemma_call(m, nnn, r1);
    let called: Machine = m.step(r1).0;
    assert(called.word_at_pc() == 0x00EE);
    lemma_return(called, r2);
    assert(called.stack.drop_last() =~= m.stack);
}

/// `Dxyn` with the sprite inside memory draws it at `(Vx, Vy)` and sets `VF`
/// to 1 if that puts a pixel out, and to 0 if not.
pub proof fn lemma_draw(m: Machine, x: u8, y: u8, n: u8, random: u8)
    requires
        x < 16,
        y < 16,
        n < 16,
        about_to_run(m, word_xyn(0xD, x as int, y as int, n as int)),
        m.index + n <= 4096,
    ensures
        m.step(random).1 is Ok,
        m.step(random).0.screen == draw_sprite(
            m.screen,
            m.sprite(n),
            m.v(x) as int,
            m.v(y) as int,
        ),
        m.step(random).0 == (Machine {
            opcode: m.word_at_pc(),
            pc: (m.pc + 2) as u16,
            screen: m.step(random).0.screen,
            registers: m.registers.update(15, m.step(random).0.v(15)),
            ..m
        }),
        m.step(random).0.v(15) == 1 <==> exists|p: int|
            0 <= p < 2048 && m.screen[p] && !(#[trigger] m.step(random).0.screen[p]),
        m.step(random).0.v(15) == 0 || m.step(random).0.v(15) == 1,
{
    lemma_decode_draw(x, y, n);
    lemma_step_performs(m, Instruction::Draw { x, y, n }, random);
    let sprite: Seq<u8> = m.sprite(n);
    let vx: int = m.v(x) as int;
    let vy: int = m.v(y) as int;
    let after: Seq<bool> = m.step(random).0.screen;
    assert(m.fetched().sprite(n) == sprite);
    if exists|p: int| 0 <= p < 2048 && m.screen[p] && !(#[trigger] after[p]) {
        let p: int = choose|p: int| 0 <= p < 2048 && m.screen[p] && !(#[trigger] after[p]);
        assert(toggles(sprite, vx, vy, p));
    }
    if exists|p: int| 0 <= p < 2048 && m.screen[p] && #[trigger] toggles(sprite, vx, vy, p) {
        let p: int = choose|p: int|
            0 <= p < 2048 && m.screen[p] && #[trigger] toggles(sprite, vx, vy, p);
        assert(!after[p]);
    }
}

/// Two `Dxyn` in a row, with the same operands and neither `Vx` nor `Vy`
/// being `VF`, leave the display as it was; the second sets `VF` to 1 if
/// the first switched a pixel on, and to 0 if it did not.
pub proof fn lemma_draw_twice(m: Machine, x: u8, y: u8, n: u8, r1: u8, r2: u8)
    requires
        x < 15,
        y < 15,
        n < 16,
        about_to_run(m, word_xyn(0xD, x as int, y as int, n as int)),
        m.index + n <= 4096,
        m.pc + 3 < 4096,
        m.memory[m.pc + 2] == m.memory[m.pc as int],
        m.memory[m.pc + 3] == m.memory[m.pc + 1],
    ensures
        ({
            let once: Machine = m.step(r1).0;
            let twice: Machine = once.step(r2).0;
            &&& m.step(r1).1 is Ok
            &&& once.step(r2).1 is Ok
            &&& twice.screen == m.screen
            &&& twice.v(15) == (if exists|p: int|
                0 <= p < 2048 && !m.screen[p] && #[trigger] once.screen[p] { 1u8 } else { 0u8 })
        }),
{
    lemma_draw(m, x, y, n, r1);
    let once: Machine = m.step(r1).0;
    let sprite: Seq<u8> = m.sprite(n);
    let vx: int = m.v(x) as int;
    let vy: int = m.v(y) as int;
    assert(once.word_at_pc() == m.word_at_pc());
    assert(once.sprite(n) == sprite);
    assert(once.v(x) == vx && once.v(y) == vy);
    lemma_draw(once, x, y, n, r2);
    let twice: Machine = once.step(r2).0;
    lemma_draw_twice_restores(m.screen, sprite, vx, vy);
    if exists|p: int| 0 <= p < 2048 && !m.screen[p] && #[trigger] once.screen[p] {
        let p: int = choose|p: int| 0 <= p < 2048 && !m.screen[p] && #[trigger] once.screen[p];
        assert(once.screen[p] && !twice.screen[p]);
    }
    if exists|p: int| 0 <= p < 2048 && once.screen[p] && !(#[trigger] twice.screen[p]) {
        let p: int = choose|p: int|
            0 <= p < 2048 && once.screen[p] && !(#[trigger] twice.screen[p]);
        assert(!m.screen[p] && once.screen[p]);
    }
}

/// While no key is down, `Fx0A` does not let the program go on: a step
/// latches the word and changes nothing else, the program counter included,
/// and so does every step after it.
pub proof fn lemma_wait_key_blocks(m: Machine, x: u8, r1: u8, r2: u8)
    requires
        x < 16,
        about_to_run(m, word_xkk(0xF, x as int, 0x0A)),
        forall|k: int| 0 <= k < 16 ==> !m.keys[k],
    ensures
        m.step(r1).1 is Ok,
        m.step(r1).0 == (Machine { opcode: m.word_at_pc(), ..m }),
        m.step(r1).0.pc == m.pc,
        m.step(r1).0.step(r2) == m.step(r1),
{
    lemma_decode_misc(x);
    assert(lowest_down(m.keys) is None);
    lemma_step_performs(m, Instruction::WaitKey { x }, r1);
    let waiting: Machine = m.step(r1).0;
    assert(waiting == (Machine { opcode: m.word_at_pc(), ..m }));
    lemma_step_performs(waiting, Instruction::WaitKey { x }, r2);
}

/// Once a key is down, `Fx0A` stores the lowest index of a key that is down
/// in `Vx` and moves on to the next instruction.
pub proof fn lemma_wait_key_takes_lowest(m: Machine, x: u8, k: int, random: u8)
    requires
        x < 16,
        about_to_run(m, word_xkk(0xF, x as int, 0x0A)),
        is_lowest_down(m.keys, k),
    ensures
        m.step(random).1 is Ok,
        m.step(random).0.v(x) == k,
        m.step(random).0.pc == m.pc + 2,
{
    lemma_decode_misc(x);
    lemma_step_performs(m, Instruction::WaitKey { x }, random);
    let chosen: int = choose|c: int| is_lowest_down(m.keys, c);
    assert(chosen == k) by {
        if chosen < k {
            assert(!m.keys[chosen]);
        }
    }
}

/// `Fx29` points `I` at five times `Vx`. Where `Vx` is a digit below 16 and
/// the font is in place, the five bytes at `I` are the rows of its glyph.
pub proof fn lemma_load_glyph(m: Machine, x: u8, random: u8)
    requires
        x < 16,
        about_to_run(m, word_xkk(0xF, x as int, 0x29)),
    ensures
        m.step(random).1 is Ok,
        m.step(random).0.index == glyph_address(m.v(x) as int) == 5 * m.v(x),
        m.v(x) < 16 && m.memory.subrange(0, 80) == font_table() ==> m.step(random).0.sprite(5)
            == glyph(m.v(x) as int),
{
    lemma_decode_misc(x);
    lemma_step_performs(m, Instruction::LoadGlyph { x }, random);
    let after: Machine = m.step(random).0;
    if m.v(x) < 16 && m.memory.subrange(0, 80) == font_table() {
        assert forall|i: int| 0 <= i < 5 implies after.sprite(5)[i] == glyph(m.v(x) as int)[i] by {
            assert(m.memory.subrange(0, 80)[5 * m.v(x) + i] == m.memory[5 * m.v(x) + i]);
        }
        assert(after.sprite(5) =~= glyph(m.v(x) as int));
    }
}

/// The machine after `n` timer ticks.
pub open spec fn ticks(m: Machine, n: nat) -> Machine
    decreases n,
{
    if n == 0 {
        m
    } else {
        ticks(m, (n - 1) as nat).tick()
    }
}

/// Each timer counts down by one per tick and stays at zero. A sound that is
/// set to `s` ticks ends with one beep: tick number `s` beeps, and no tick
/// before or after it does.
pub proof fn lemma_timers_count_down(m: Machine, n: nat)
    ensures
        ticks(m, n).delay_timer == (if n <= m.delay_timer { m.delay_timer - n } else { 0 }),
        ticks(m, n).sound_timer == (if n <= m.sound_timer { m.sound_timer - n } else { 0 }),
        ticks(m, n).beeps() <==> n + 1 == m.sound_timer,
        ticks(m, n) == (Machine {
            delay_timer: ticks(m, n).delay_timer,
            sound_timer: ticks(m, n).sound_timer,
            ..m
        }),
    decreases n,
{
    if n > 0 {
        lemma_timers_count_down(m, (n - 1) as nat);
    }
}

} // verus!
