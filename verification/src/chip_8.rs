//! The executable machine.
//!
//! [`Chip8`] holds the state in fixed arrays. What each operation does is
//! stated over its view, the [`Machine`] of the model: `cycle` is
//! [`Machine::step`], `cycle_timers` is [`Machine::tick`].

pub use crate::display::{GAME_HEIGHT, GAME_WIDTH};
use crate::display::{
    bit_is_set, collides_before, draw_sprite, lemma_pixel_under, sprite_collides, toggles,
    toggles_before,
};
use crate::font::CHIP8_FONTSET;
use crate::instruction::{decode, Instruction};
use crate::machine::{
    is_lowest_down, lowest_down, Chip8Error, Machine, FLAG, MAX_ROM_BYTES, PROGRAM_START,
};
use crate::rng::random_byte;
use vstd::prelude::*;

verus! {

/// A CHIP-8 machine. Its state is described by its view, a [`Machine`].
#[derive(Debug)]
pub struct Chip8 {
    opcode: u16,
    memory: [u8; 4096],
    cpu_register_v: [u8; 16],
    screen: [bool; 2048],
    register_index: u16,
    pc: u16,
    delay_timer: u8,
    sound_timer: u8,
    stack_pointer: u16,
    stack: [u16; 16],
    keys: [bool; 16],
}

impl View for Chip8 {
    type V = Machine;

    closed spec fn view(&self) -> Machine {
        Machine {
            opcode: self.opcode,
            memory: self.memory@,
            registers: self.cpu_register_v@,
            screen: self.screen@,
            index: self.register_index,
            pc: self.pc,
            delay_timer: self.delay_timer,
            sound_timer: self.sound_timer,
            stack: self.stack@.subrange(0, self.stack_pointer as int),
            keys: self.keys@,
        }
    }
}

impl Chip8 {
    /// The stack pointer never leaves the stack.
    #[verifier::type_invariant]
    spec fn inv(self) -> bool {
        self.stack_pointer <= 16
    }

    /// Whether `self` and `other` agree on everything but memory, the
    /// registers and the display.
    spec fn agrees_on_scalars(self, other: Chip8) -> bool {
        &&& self.opcode == other.opcode
        &&& self.register_index == other.register_index
        &&& self.pc == other.pc
        &&& self.delay_timer == other.delay_timer
        &&& self.sound_timer == other.sound_timer
        &&& self.stack_pointer == other.stack_pointer
        &&& self.stack == other.stack
        &&& self.keys == other.keys
    }

    /// A machine at power-on, with the font in place and no program loaded.
    pub fn initialize() -> (chip8: Chip8)
        ensures
            chip8@ == Machine::initial(),
            chip8@.wf(),
    {
        let mut chip8 = Chip8 {
            opcode: 0,
            memory: [0;4096],
            screen: [false;2048],
            cpu_register_v: [0;16],
            register_index: 0,
            pc: PROGRAM_START as u16,
            delay_timer: 0,
            sound_timer: 0,
            stack_pointer: 0,
            stack: [0;16],
            keys: [false;16],
        };
        chip8.load_fontset();
        assert(chip8@.memory =~= Machine::initial().memory);
        assert(chip8@.registers =~= Machine::initial().registers);
        assert(chip8@.screen =~= Machine::initial().screen);
        assert(chip8@.stack =~= Machine::initial().stack);
        assert(chip8@.keys =~= Machine::initial().keys);
        chip8
    }

    /// Writes the font over the first eighty bytes of memory.
    pub fn load_fontset(&mut self)
        ensures
            final(self)@ == old(self)@.with_font(),
            final(self)@.wf(),
    {
        proof {
            use_type_invariant(&*self);
        }
        let mut i: usize = 0;
        while i < 80
            invariant
                i <= 80,
                self.stack_pointer <= 16,
                forall|a: int| 0 <= a < i ==> self.memory@[a] == CHIP8_FONTSET@[a],
                forall|a: int| i <= a < 4096 ==> self.memory@[a] == old(self).memory@[a],
                self.agrees_on_scalars(*old(self)),
                self.cpu_register_v == old(self).cpu_register_v,
                self.screen == old(self).screen,
            decreases 80 - i,
        {
            self.memory[i] = CHIP8_FONTSET[i];
            i += 1;
        }
        assert(self@.memory =~= old(self)@.with_font().memory);
    }

    /// The pixels, row by row: the pixel in column `x` of row `y` has index
    /// `x + 64 * y`.
    pub fn get_display(&self) -> (pixels: &[bool])
        ensures
            pixels@ == self@.screen,
            pixels@.len() == 2048,
    {
        &self.screen
    }

    /// The 4096 bytes of memory.
    pub fn get_memory(&self) -> (bytes: &[u8])
        ensures
            bytes@ == self@.memory,
            bytes@.len() == 4096,
    {
        &self.memory
    }

    /// The registers `V0` to `VF`.
    pub fn get_registers(&self) -> (registers: &[u8])
        ensures
            registers@ == self@.registers,
            registers@.len() == 16,
    {
        &self.cpu_register_v
    }

    /// The index register `I`.
    pub fn get_index(&self) -> (index: u16)
        ensures
            index == self@.index,
    {
        self.register_index
    }

    /// The program counter.
    pub fn get_pc(&self) -> (pc: u16)
        ensures
            pc == self@.pc,
    {
        self.pc
    }

    /// The word fetched last.
    pub fn get_opcode(&self) -> (opcode: u16)
        ensures
            opcode == self@.opcode,
    {
        self.opcode
    }

    /// The delay timer.
    pub fn get_delay_timer(&self) -> (ticks: u8)
        ensures
            ticks == self@.delay_timer,
    {
        self.delay_timer
    }

    /// The sound timer.
    pub fn get_sound_timer(&self) -> (ticks: u8)
        ensures
            ticks == self@.sound_timer,
    {
        self.sound_timer
    }

    /// The number of return addresses on the call stack.
    pub fn get_stack_depth(&self) -> (depth: usize)
        ensures
            depth == self@.stack.len(),
            depth <= 16,
    {
        proof {
            use_type_invariant(self);
        }
        self.stack_pointer as usize
    }

    /// Records that key `i` went down (`pressed`) or up.
    pub fn keypress(&mut self, i: usize, pressed: bool)
        requires
            i < 16,
        ensures
            final(self)@ == old(self)@.with_key(i as int, pressed),
            final(self)@.wf(),
    {
        proof {
            use_type_invariant(&*self);
        }
        self.keys[i] = pressed;
    }

    /// Copies a program into memory from address 512 on.
    ///
    /// A program of more than 3584 bytes does not fit: it is refused with
    /// `RomTooLarge` and the machine is left as it was.
    pub fn load_game(&mut self, rom: &[u8]) -> (r: Result<(), Chip8Error>)
        ensures
            rom@.len() <= MAX_ROM_BYTES ==> r == Ok::<(), Chip8Error>(())
                && final(self)@ == old(self)@.with_rom(rom@),
            rom@.len() > MAX_ROM_BYTES ==> r == Err::<(), Chip8Error>(Chip8Error::RomTooLarge)
                && final(self)@ == old(self)@,
            final(self)@.wf(),
    {
        proof {
            use_type_invariant(&*self);
        }
        if rom.len() > MAX_ROM_BYTES {
            return Err(Chip8Error::RomTooLarge);
        }
        let mut i: usize = 0;
        while i < rom.len()
            invariant
                i <= rom@.len() <= 3584,
                self.stack_pointer <= 16,
                forall|a: int| 512 <= a < 512 + i ==> self.memory@[a] == rom@[a - 512],
                forall|a: int|
                    0 <= a < 4096 && !(512 <= a < 512 + i)
                        ==> self.memory@[a] == old(self).memory@[a],
                self.agrees_on_scalars(*old(self)),
                self.cpu_register_v == old(self).cpu_register_v,
                self.screen == old(self).screen,
            decreases rom@.len() - i,
        {
            self.memory[PROGRAM_START + i] = rom[i];
            i += 1;
        }
        assert(self@.memory =~= old(self)@.with_rom(rom@).memory);
        Ok(())
    }

    /// Counts both timers down by one where they are running.
    ///
    /// Returns whether a sound ends with this tick, that is, whether the
    /// sound timer stood at 1: the host sounds its beep then.
    pub fn cycle_timers(&mut self) -> (beep: bool)
        ensures
            final(self)@ == old(self)@.tick(),
            beep == old(self)@.beeps(),
            final(self)@.wf(),
    {
        proof {
            use_type_invariant(&*self);
        }
        let mut beep: bool = false;
        if self.delay_timer > 0 {
            self.delay_timer -= 1;
        }
        if self.sound_timer > 0 {
            if self.sound_timer == 1 {
                beep = true;
            }
            self.sound_timer -= 1;
        }
        beep
    }
}

/// Whether `instr` steers the program: a jump, a call, a return or a skip.
spec fn is_flow(instr: Instruction) -> bool {
    match instr {
        Instruction::Return
        | Instruction::Jump { .. }
        | Instruction::Call { .. }
        | Instruction::SkipEqImm { .. }
        | Instruction::SkipNeImm { .. }
        | Instruction::SkipEqReg { .. }
        | Instruction::SkipNeReg { .. }
        | Instruction::JumpOffset { .. }
        | Instruction::SkipKeyDown { .. }
        | Instruction::SkipKeyUp { .. } => true,
        _ => false,
    }
}

/// Whether `instr` computes a register from registers, a literal or the
/// random byte.
spec fn is_arithmetic(instr: Instruction) -> bool {
    match instr {
        Instruction::LoadImm { .. }
        | Instruction::AddImm { .. }
        | Instruction::Or { .. }
        | Instruction::And { .. }
        | Instruction::Xor { .. }
        | Instruction::AddReg { .. }
        | Instruction::SubReg { .. }
        | Instruction::SubFrom { .. }
        | Instruction::ShiftRight { .. }
        | Instruction::ShiftLeft { .. }
        | Instruction::Random { .. } => true,
        _ => false,
    }
}

impl Chip8 {
    /// Register `Vx`.
    fn v(&self, x: u8) -> (value: u8)
        requires
            x < 16,
        ensures
            value == self@.v(x),
    {
        self.cpu_register_v[x as usize]
    }

    /// Sets register `Vx`.
    fn set_v(&mut self, x: u8, value: u8)
        requires
            x < 16,
        ensures
            final(self)@ == old(self)@.with_v(x, value),
    {
        proof {
            use_type_invariant(&*self);
        }
        self.cpu_register_v[x as usize] = value;
    }

    /// Puts a return address on the call stack.
    fn push(&mut self, value: u16)
        requires
            old(self)@.stack.len() < 16,
        ensures
            final(self)@ == (Machine { stack: old(self)@.stack.push(value), ..old(self)@ }),
    {
        proof {
            use_type_invariant(&*self);
        }
        self.stack[self.stack_pointer as usize] = value;
        self.stack_pointer += 1;
        assert(self@.stack =~= old(self)@.stack.push(value));
    }

    /// Takes the most recent return address off the call stack.
    fn pop(&mut self) -> (value: u16)
        requires
            old(self)@.stack.len() > 0,
        ensures
            value == old(self)@.stack.last(),
            final(self)@ == (Machine { stack: old(self)@.stack.drop_last(), ..old(self)@ }),
    {
        proof {
            use_type_invariant(&*self);
        }
        self.stack_pointer -= 1;
        assert(self@.stack =~= old(self)@.stack.drop_last());
        self.stack[self.stack_pointer as usize]
    }

    /// Reads the word at the program counter and steps past it.
    fn fetch(&mut self) -> (r: Result<u16, Chip8Error>)
        ensures
            old(self)@.can_fetch() ==> r == Ok::<u16, Chip8Error>(old(self)@.word_at_pc())
                && final(self)@ == old(self)@.fetched(),
            !old(self)@.can_fetch() ==> r == Err::<u16, Chip8Error>(
                Chip8Error::MemoryOutOfBounds,
            ) && final(self)@ == old(self)@,
    {
        proof {
            use_type_invariant(&*self);
        }
        if self.pc >= 4095 {
            return Err(Chip8Error::MemoryOutOfBounds);
        }
        let high: u8 = self.memory[self.pc as usize];
        let low: u8 = self.memory[(self.pc + 1) as usize];
        let word: u16 = (high as u16) << 8 | low as u16;
        assert(word == high * 256 + low) by (bit_vector)
            requires
                word == (high as u16) << 8 | low as u16,
        ;
        self.opcode = word;
        self.pc += 2;
        Ok(word)
    }

    /// The lowest key that is down.
    fn first_key_down(&self) -> (r: Option<u8>)
        ensures
            r matches Some(k) ==> lowest_down(self@.keys) == Some(k as int) && k < 16,
            r is None ==> lowest_down(self@.keys) is None,
    {
        let mut k: u8 = 0;
        while k < 16
            invariant
                k <= 16,
                forall|j: int| 0 <= j < k ==> !self.keys@[j],
            decreases 16 - k,
        {
            if self.keys[k as usize] {
                assert(is_lowest_down(self@.keys, k as int));
                let ghost chosen: int = choose|c: int| is_lowest_down(self@.keys, c);
                assert(chosen == k) by {
                    if chosen < k {
                        assert(!self.keys@[chosen]);
                    }
                }
                return Some(k);
            }
            k += 1;
        }
        None
    }

    /// Writes `V0..=Vx` to memory at `I` onwards.
    fn store_registers(&mut self, x: u8)
        requires
            x < 16,
            old(self).register_index + x < 4096,
        ensures
            final(self)@ == old(self)@.apply(Instruction::StoreRegisters { x }, 0),
    {
        proof {
            use_type_invariant(&*self);
        }
        let base: usize = self.register_index as usize;
        let mut i: usize = 0;
        while i <= x as usize
            invariant
                i <= x + 1,
                x < 16,
                base + x < 4096,
                base == old(self).register_index,
                self.stack_pointer <= 16,
                forall|a: int|
                    0 <= a < 4096 ==> self.memory@[a] == if base <= a < base + i {
                        old(self).cpu_register_v@[a - base]
                    } else {
                        old(self).memory@[a]
                    },
                self.agrees_on_scalars(*old(self)),
                self.cpu_register_v == old(self).cpu_register_v,
                self.screen == old(self).screen,
            decreases x + 1 - i,
        {
            self.memory[base + i] = self.cpu_register_v[i];
            i += 1;
        }
        assert(self@.memory =~= old(self)@.apply(Instruction::StoreRegisters { x }, 0).memory);
    }

    /// Reads `V0..=Vx` from memory at `I` onwards.
    fn load_registers(&mut self, x: u8)
        requires
            x < 16,
            old(self).register_index + x < 4096,
        ensures
            final(self)@ == old(self)@.apply(Instruction::LoadRegisters { x }, 0),
    {
        proof {
            use_type_invariant(&*self);
        }
        let base: usize = self.register_index as usize;
        let mut i: usize = 0;
        while i <= x as usize
            invariant
                i <= x + 1,
                x < 16,
                base + x < 4096,
                base == old(self).register_index,
                self.stack_pointer <= 16,
                forall|r: int|
                    0 <= r < 16 ==> self.cpu_register_v@[r] == if r < i {
                        old(self).memory@[base + r]
                    } else {
                        old(self).cpu_register_v@[r]
                    },
                self.agrees_on_scalars(*old(self)),
                self.memory == old(self).memory,
                self.screen == old(self).screen,
            decreases x + 1 - i,
        {
            self.cpu_register_v[i] = self.memory[base + i];
            i += 1;
        }
        assert(self@.registers =~= old(self)@.apply(Instruction::LoadRegisters { x }, 0).registers);
    }

    /// Writes the three decimal digits of `Vx` to memory at `I` onwards.
    fn store_bcd(&mut self, x: u8)
        requires
            x < 16,
            old(self).register_index + 2 < 4096,
        ensures
            final(self)@ == old(self)@.apply(Instruction::StoreBcd { x }, 0),
    {
        proof {
            use_type_invariant(&*self);
        }
        let value: u8 = self.v(x);
        let at: usize = self.register_index as usize;
        self.memory[at] = value / 100;
        self.memory[at + 1] = (value / 10) % 10;
        self.memory[at + 2] = value % 10;
        assert(self@.memory =~= old(self)@.apply(Instruction::StoreBcd { x }, 0).memory);
    }

    /// Draws the `n`-row sprite at `I` with its top left corner at column
    /// `Vx mod 64`, row `Vy mod 32`: every pixel under a set bit is toggled,
    /// and what sticks out over an edge comes back in at the opposite one.
    /// `VF` records whether a pixel that was on has been switched off.
    fn draw(&mut self, x: u8, y: u8, n: u8)
        requires
            x < 16,
            y < 16,
            n < 16,
            old(self).register_index + n <= 4096,
        ensures
            final(self)@ == old(self)@.apply(Instruction::Draw { x, y, n }, 0),
    {
        proof {
            use_type_invariant(&*self);
        }
        let x_coord: usize = self.v(x) as usize;
        let y_coord: usize = self.v(y) as usize;
        let base: usize = self.register_index as usize;
        let n_bytes: usize = n as usize;
        let ghost before: Seq<bool> = self.screen@;
        let ghost sprite: Seq<u8> = self@.sprite(n);
        let ghost x0: int = x_coord as int;
        let ghost y0: int = y_coord as int;
        let mut flipped: bool = false;
        let mut i: usize = 0;
        while i < n_bytes
            invariant
                i <= n_bytes < 16,
                base + n_bytes <= 4096,
                x0 == x_coord < 256,
                y0 == y_coord < 256,
                before.len() == 2048,
                sprite == self.memory@.subrange(base as int, base + n_bytes),
                self.stack_pointer <= 16,
                forall|p: int|
                    0 <= p < 2048 ==> self.screen@[p] == (before[p] != #[trigger] toggles_before(
                        sprite,
                        x0,
                        y0,
                        p,
                        i as int,
                        0,
                    )),
                flipped == collides_before(before, sprite, x0, y0, i as int, 0),
                self.agrees_on_scalars(*old(self)),
                self.memory == old(self).memory,
                self.cpu_register_v == old(self).cpu_register_v,
            decreases n_bytes - i,
        {
            let pixels: u8 = self.memory[base + i];
            let mut j: u8 = 0;
            while j < 8
                invariant
                    i < n_bytes < 16,
                    j <= 8,
                    base + n_bytes <= 4096,
                    x0 == x_coord < 256,
                    y0 == y_coord < 256,
                    before.len() == 2048,
                    sprite.len() == n_bytes,
                    pixels == sprite[i as int],
                    self.stack_pointer <= 16,
                    forall|p: int|
                        0 <= p < 2048 ==> self.screen@[p] == (before[p]
                            != #[trigger] toggles_before(sprite, x0, y0, p, i as int, j as int)),
                    flipped == collides_before(before, sprite, x0, y0, i as int, j as int),
                    self.agrees_on_scalars(*old(self)),
                    self.memory == old(self).memory,
                    self.cpu_register_v == old(self).cpu_register_v,
                decreases 8 - j,
            {
                let px: usize = (x_coord + j as usize) % GAME_WIDTH;
                let py: usize = (y_coord + i) % GAME_HEIGHT;
                let idx: usize = px + GAME_WIDTH * py;
                let ghost was: Seq<bool> = self.screen@;
                let ghost had: bool = flipped;
                if bit_is_set(pixels, j) {
                    if self.screen[idx] {
                        flipped = true;
                    }
                    self.screen[idx] = !self.screen[idx];
                }
                proof {
                    assert forall|p: int| 0 <= p < 2048 implies self.screen@[p] == (before[p]
                        != #[trigger] toggles_before(sprite, x0, y0, p, i as int, j + 1)) by {
                        lemma_pixel_under(x0, y0, i as int, j as int, p);
                        assert(was[p] == (before[p] != toggles_before(
                            sprite,
                            x0,
                            y0,
                            p,
                            i as int,
                            j as int,
                        )));
                    }
                    lemma_pixel_under(x0, y0, i as int, j as int, idx as int);
                    assert(was[idx as int] == (before[idx as int] != toggles_before(
                        sprite,
                        x0,
                        y0,
                        idx as int,
                        i as int,
                        j as int,
                    )));
                    if flipped {
                        if had {
                            let p: int = choose|p: int|
                                0 <= p < 2048 && before[p] && #[trigger] toggles_before(
                                    sprite,
                                    x0,
                                    y0,
                                    p,
                                    i as int,
                                    j as int,
                                );
                            assert(toggles_before(sprite, x0, y0, p, i as int, j + 1));
                        } else {
                            assert(toggles_before(sprite, x0, y0, idx as int, i as int, j + 1));
                        }
                    }
                    if collides_before(before, sprite, x0, y0, i as int, j + 1) {
                        let p: int = choose|p: int|
                            0 <= p < 2048 && before[p] && #[trigger] toggles_before(
                                sprite,
                                x0,
                                y0,
                                p,
                                i as int,
                                j + 1,
                            );
                        lemma_pixel_under(x0, y0, i as int, j as int, p);
                        if p != idx {
                            assert(toggles_before(sprite, x0, y0, p, i as int, j as int));
                        }
                    }
                }
                j += 1;
            }
            proof {
                assert forall|p: int| 0 <= p < 2048 implies self.screen@[p] == (before[p]
                    != #[trigger] toggles_before(sprite, x0, y0, p, i + 1, 0)) by {
                    assert(self.screen@[p] == (before[p] != toggles_before(
                        sprite,
                        x0,
                        y0,
                        p,
                        i as int,
                        8,
                    )));
                }
                if collides_before(before, sprite, x0, y0, i as int, 8) {
                    let p: int = choose|p: int|
                        0 <= p < 2048 && before[p] && #[trigger] toggles_before(
                            sprite,
                            x0,
                            y0,
                            p,
                            i as int,
                            8,
                        );
                    assert(toggles_before(sprite, x0, y0, p, i + 1, 0));
                }
                if collides_before(before, sprite, x0, y0, i + 1, 0) {
                    let p: int = choose|p: int|
                        0 <= p < 2048 && before[p] && #[trigger] toggles_before(
                            sprite,
                            x0,
                            y0,
                            p,
                            i + 1,
                            0,
                        );
                    assert(toggles_before(sprite, x0, y0, p, i as int, 8));
                }
            }
            i += 1;
        }
        proof {
            let rows: int = n as int;
            assert forall|p: int| 0 <= p < 2048 implies self.screen@[p] == (before[p] != toggles(
                sprite,
                x0,
                y0,
                p,
            )) by {
                assert(self.screen@[p] == (before[p] != toggles_before(sprite, x0, y0, p, rows, 0)));
            }
            assert(self.screen@ =~= draw_sprite(before, sprite, x0, y0));
            if flipped {
                let p: int = choose|p: int|
                    0 <= p < 2048 && before[p] && #[trigger] toggles_before(
                        sprite,
                        x0,
                        y0,
                        p,
                        rows,
                        0,
                    );
                assert(toggles(sprite, x0, y0, p));
            }
            if sprite_collides(before, sprite, x0, y0) {
                let p: int = choose|p: int|
                    0 <= p < 2048 && before[p] && #[trigger] toggles(sprite, x0, y0, p);
                assert(toggles_before(sprite, x0, y0, p, rows, 0));
            }
        }
        self.set_v(FLAG, if flipped { 1 } else { 0 });
    }

    /// Moves the program counter past the next instruction where `skip` holds.
    fn skip_if(&mut self, skip: bool)
        requires
            old(self).pc <= 4096,
        ensures
            final(self)@ == old(self)@.with_pc(crate::machine::skip_if(old(self)@.pc, skip)),
    {
        proof {
            use_type_invariant(&*self);
        }
        if skip {
            self.pc += 2;
        }
    }

    /// Carries out an instruction that steers the program: a jump, a call,
    /// a return or a skip.
    fn run_flow(&mut self, instr: Instruction) -> (r: Result<(), Chip8Error>)
        requires
            instr.wf(),
            is_flow(instr),
            2 <= old(self).pc <= 4096,
        ensures
            (final(self)@, r) == old(self)@.perform(instr, 0),
    {
        proof {
            use_type_invariant(&*self);
        }
        match instr {
            Instruction::Return => {
                if self.stack_pointer == 0 {
                    return Err(Chip8Error::StackUnderflow);
                }
                let return_address: u16 = self.pop();
                proof {
                    use_type_invariant(&*self);
                }
                self.pc = return_address;
            },
            Instruction::Jump { addr } => {
                self.pc = addr;
            },
            Instruction::Call { addr } => {
                if self.stack_pointer >= 16 {
                    return Err(Chip8Error::StackOverflow);
                }
                self.push(self.pc);
                proof {
                    use_type_invariant(&*self);
                }
                self.pc = addr;
            },
            Instruction::SkipEqImm { x, kk } => {
                self.skip_if(self.v(x) == kk);
            },
            Instruction::SkipNeImm { x, kk } => {
                self.skip_if(self.v(x) != kk);
            },
            Instruction::SkipEqReg { x, y } => {
                self.skip_if(self.v(x) == self.v(y));
            },
            Instruction::SkipNeReg { x, y } => {
                self.skip_if(self.v(x) != self.v(y));
            },
            Instruction::JumpOffset { addr } => {
                self.pc = self.v(0) as u16 + addr;
            },
            Instruction::SkipKeyDown { x } => {
                let key: u8 = self.v(x);
                if key >= 16 {
                    return Err(Chip8Error::KeyOutOfRange);
                }
                self.skip_if(self.keys[key as usize]);
            },
            Instruction::SkipKeyUp { x } => {
                let key: u8 = self.v(x);
                if key >= 16 {
                    return Err(Chip8Error::KeyOutOfRange);
                }
                self.skip_if(!self.keys[key as usize]);
            },
            _ => {},
        }
        Ok(())
    }

    /// Carries out an instruction that computes a register from registers,
    /// a literal or the random byte.
    fn run_arithmetic(&mut self, instr: Instruction, random: u8)
        requires
            instr.wf(),
            is_arithmetic(instr),
        ensures
            old(self)@.fault(instr) is None,
            final(self)@ == old(self)@.apply(instr, random),
    {
        match instr {
            Instruction::LoadImm { x, kk } => {
                self.set_v(x, kk);
            },
            Instruction::AddImm { x, kk } => {
                self.set_v(x, self.v(x).wrapping_add(kk));
            },
            Instruction::Or { x, y } => {
                self.set_v(x, self.v(x) | self.v(y));
            },
            Instruction::And { x, y } => {
                self.set_v(x, self.v(x) & self.v(y));
            },
            Instruction::Xor { x, y } => {
                self.set_v(x, self.v(x) ^ self.v(y));
            },
            Instruction::AddReg { x, y } => {
                let a: u8 = self.v(x);
                let b: u8 = self.v(y);
                let carry: bool = a as u16 + b as u16 > 255;
                self.set_v(x, a.wrapping_add(b));
                self.set_v(FLAG, if carry { 1 } else { 0 });
            },
            Instruction::SubReg { x, y } => {
                let a: u8 = self.v(x);
                let b: u8 = self.v(y);
                self.set_v(x, a.wrapping_sub(b));
                self.set_v(FLAG, if a >= b { 1 } else { 0 });
            },
            Instruction::SubFrom { x, y } => {
                let a: u8 = self.v(x);
                let b: u8 = self.v(y);
                self.set_v(x, b.wrapping_sub(a));
                self.set_v(FLAG, if b >= a { 1 } else { 0 });
            },
            Instruction::ShiftRight { x } => {
                let a: u8 = self.v(x);
                assert(a & 1 == a % 2) by (bit_vector);
                self.set_v(FLAG, a & 1);
                let shifted: u8 = self.v(x);
                assert(shifted >> 1 == shifted / 2) by (bit_vector);
                self.set_v(x, shifted >> 1);
            },
            Instruction::ShiftLeft { x } => {
                let a: u8 = self.v(x);
                assert((a >> 7) & 1 == a / 128) by (bit_vector);
                self.set_v(FLAG, (a >> 7) & 1);
                let shifted: u8 = self.v(x);
                assert(shifted << 1 == (shifted * 2) % 256) by (bit_vector);
                self.set_v(x, shifted << 1);
            },
            Instruction::Random { x, kk } => {
                self.set_v(x, random & kk);
            },
            _ => {},
        }
    }

    /// Carries out an instruction that works on the display, the timers,
    /// the keypad, the index register or memory.
    fn run_device(&mut self, instr: Instruction) -> (r: Result<(), Chip8Error>)
        requires
            instr.wf(),
            !is_flow(instr),
            !is_arithmetic(instr),
            2 <= old(self).pc <= 4096,
        ensures
            (final(self)@, r) == old(self)@.perform(instr, 0),
    {
        proof {
            use_type_invariant(&*self);
        }
        match instr {
            Instruction::ClearScreen => {
                self.screen = [false;2048];
                assert(self@.screen =~= crate::display::blank_screen());
            },
            Instruction::LoadIndex { addr } => {
                self.register_index = addr;
            },
            Instruction::Draw { x, y, n } => {
                if self.register_index as usize + n as usize > 4096 {
                    return Err(Chip8Error::MemoryOutOfBounds);
                }
                self.draw(x, y, n);
            },
            Instruction::LoadDelay { x } => {
                self.set_v(x, self.delay_timer);
            },
            Instruction::WaitKey { x } => {
                match self.first_key_down() {
                    Some(key) => {
                        self.set_v(x, key);
                    },
                    None => {
                        self.pc -= 2;
                    },
                }
            },
            Instruction::SetDelay { x } => {
                self.delay_timer = self.v(x);
            },
            Instruction::SetSound { x } => {
                self.sound_timer = self.v(x);
            },
            Instruction::AddIndex { x } => {
                self.register_index = self.register_index.wrapping_add(self.v(x) as u16);
            },
            Instruction::LoadGlyph { x } => {
                self.register_index = self.v(x) as u16 * 5;
            },
            Instruction::StoreBcd { x } => {
                if self.register_index as usize + 2 >= 4096 {
                    return Err(Chip8Error::MemoryOutOfBounds);
                }
                self.store_bcd(x);
            },
            Instruction::StoreRegisters { x } => {
                if self.register_index as usize + x as usize >= 4096 {
                    return Err(Chip8Error::MemoryOutOfBounds);
                }
                self.store_registers(x);
            },
            Instruction::LoadRegisters { x } => {
                if self.register_index as usize + x as usize >= 4096 {
                    return Err(Chip8Error::MemoryOutOfBounds);
                }
                self.load_registers(x);
            },
            _ => {},
        }
        Ok(())
    }

    /// Carries out an instruction after its word has been fetched.
    fn run(&mut self, instr: Instruction, random: u8) -> (r: Result<(), Chip8Error>)
        requires
            instr.wf(),
            2 <= old(self).pc <= 4096,
        ensures
            (final(self)@, r) == old(self)@.perform(instr, random),
            final(self)@.wf(),
    {
        proof {
            use_type_invariant(&*self);
        }
        match instr {
            Instruction::Return
            | Instruction::Jump { .. }
            | Instruction::Call { .. }
            | Instruction::SkipEqImm { .. }
            | Instruction::SkipNeImm { .. }
            | Instruction::SkipEqReg { .. }
            | Instruction::SkipNeReg { .. }
            | Instruction::JumpOffset { .. }
            | Instruction::SkipKeyDown { .. }
            | Instruction::SkipKeyUp { .. } => self.run_flow(instr),
            Instruction::LoadImm { .. }
            | Instruction::AddImm { .. }
            | Instruction::Or { .. }
            | Instruction::And { .. }
            | Instruction::Xor { .. }
            | Instruction::AddReg { .. }
            | Instruction::SubReg { .. }
            | Instruction::SubFrom { .. }
            | Instruction::ShiftRight { .. }
            | Instruction::ShiftLeft { .. }
            | Instruction::Random { .. } => {
                self.run_arithmetic(instr, random);
                Ok(())
            },
            _ => self.run_device(instr),
        }
    }

    /// Runs one cycle with `random` as the byte that a `Cxkk` instruction
    /// would draw: fetch, decode, execute.
    ///
    /// The result and the new state are those of [`Machine::step`]: a word
    /// that cannot be fetched leaves the machine untouched; an unknown word or
    /// an instruction that cannot be carried out leaves it as the fetch left
    /// it, the word latched and the program counter past it.
    pub fn cycle_with(&mut self, random: u8) -> (r: Result<(), Chip8Error>)
        ensures
            (final(self)@, r) == old(self)@.step(random),
            final(self)@.wf(),
    {
        proof {
            use_type_invariant(&*self);
        }
        let word: u16 = match self.fetch() {
            Ok(word) => word,
            Err(e) => {
                return Err(e);
            },
        };
        match decode(word) {
            None => Err(Chip8Error::UnknownOpcode),
            Some(instr) => self.run(instr, random),
        }
    }

    /// Runs one cycle: fetch, decode, execute. A `Cxkk` instruction draws
    /// its byte from the random number generator.
    ///
    /// The result and the new state are those of [`Machine::step`] for the
    /// byte that was drawn, or for any byte where none was.
    pub fn cycle(&mut self) -> (r: Result<(), Chip8Error>)
        ensures
            exists|random: u8| (final(self)@, r) == #[trigger] old(self)@.step(random),
            !old(self)@.draws_random() ==> forall|random: u8|
                (final(self)@, r) == #[trigger] old(self)@.step(random),
            final(self)@.wf(),
    {
        proof {
            use_type_invariant(&*self);
        }
        let word: u16 = match self.fetch() {
            Ok(word) => word,
            Err(e) => {
                assert((self@, Err::<(), Chip8Error>(e)) == old(self)@.step(0));
                return Err(e);
            },
        };
        match decode(word) {
            None => {
                assert((self@, Err::<(), Chip8Error>(Chip8Error::UnknownOpcode)) == old(
                    self,
                )@.step(0));
                Err(Chip8Error::UnknownOpcode)
            },
            Some(instr) => {
                let random: u8 = match instr {
                    Instruction::Random { .. } => random_byte(),
                    _ => 0,
                };
                let r = self.run(instr, random);
                assert((self@, r) == old(self)@.step(random));
                r
            },
        }
    }
}

} // verus!
