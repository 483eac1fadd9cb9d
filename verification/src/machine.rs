//! The mathematical model of the machine: its state and what one instruction
//! cycle and one timer tick do to it.
//!
//! A cycle fetches the big-endian word at the program counter, advances the
//! program counter past it, decodes the word and carries the instruction out.
//! A word that decodes to nothing is reported and otherwise skipped. An
//! instruction that cannot be carried out (a return with an empty stack, a
//! call with a full one, a memory access past the last byte, a key index
//! above 15) is reported as well; it changes nothing beyond the fetch.

use crate::display::{blank_screen, draw_sprite, sprite_collides};
use crate::font::{font_table, glyph_address};
use crate::instruction::{decode_word, Instruction};
use vstd::prelude::*;

verus! {

/// Address at which programs are loaded and start to run.
pub const PROGRAM_START: usize = 512;

/// Largest program that fits between `PROGRAM_START` and the end of memory.
pub const MAX_ROM_BYTES: usize = 3584;

/// Index of the flag register `VF`, which several instructions overwrite
/// with a carry, a borrow or a collision.
pub const FLAG: u8 = 15;

/// What can go wrong when a program is loaded or an instruction is run.
#[derive(Clone, Copy, Debug, PartialEq, Eq, Structural)]
pub enum Chip8Error {
    /// The program does not fit into memory from `PROGRAM_START` on.
    RomTooLarge,
    /// The fetched word matches no instruction.
    UnknownOpcode,
    /// A call was made with sixteen return addresses already on the stack.
    StackOverflow,
    /// A return was made with no return address on the stack.
    StackUnderflow,
    /// An address past the end of memory was about to be read or written.
    MemoryOutOfBounds,
    /// A key instruction named a key above 15.
    KeyOutOfRange,
}

/// The state of the machine.
pub struct Machine {
    /// The word fetched last.
    pub opcode: u16,
    /// The 4096 bytes of memory.
    pub memory: Seq<u8>,
    /// The registers `V0` to `VF`.
    pub registers: Seq<u8>,
    /// The 2048 pixels, row by row.
    pub screen: Seq<bool>,
    /// The index register `I`.
    pub index: u16,
    /// The program counter.
    pub pc: u16,
    /// The delay timer.
    pub delay_timer: u8,
    /// The sound timer.
    pub sound_timer: u8,
    /// The return addresses, the most recent one last.
    pub stack: Seq<u16>,
    /// The sixteen keys: `true` is down.
    pub keys: Seq<bool>,
}

/// The flag value for a condition.
pub open spec fn flag_of(b: bool) -> u8 {
    if b {
        1
    } else {
        0
    }
}

/// Whether `k` is the lowest index of a key that is down.
pub open spec fn is_lowest_down(keys: Seq<bool>, k: int) -> bool {
    &&& 0 <= k < keys.len()
    &&& keys[k]
    &&& forall|j: int| 0 <= j < k ==> !keys[j]
}

/// The lowest index of a key that is down, if any key is.
pub open spec fn lowest_down(keys: Seq<bool>) -> Option<int> {
    if exists|k: int| is_lowest_down(keys, k) {
        Some(choose|k: int| is_lowest_down(keys, k))
    } else {
        None
    }
}

/// The program counter after the next instruction has been skipped, or left
/// alone where `skip` is false.
pub open spec fn skip_if(pc: u16, skip: bool) -> u16 {
    if skip {
        (pc + 2) as u16
    } else {
        pc
    }
}

impl Machine {
    /// The sizes of the parts are as the machine defines them.
    pub open spec fn wf(self) -> bool {
        &&& self.memory.len() == 4096
        &&& self.registers.len() == 16
        &&& self.screen.len() == 2048
        &&& self.stack.len() <= 16
        &&& self.keys.len() == 16
    }

    /// The machine at power-on: the font at the bottom of memory, everything
    /// else zero, the program counter at `PROGRAM_START`.
    pub open spec fn initial() -> Machine {
        Machine {
            opcode: 0,
            memory: Seq::new(4096, |a: int| if a < 80 { font_table()[a] } else { 0u8 }),
            registers: Seq::new(16, |r: int| 0u8),
            screen: blank_screen(),
            index: 0,
            pc: PROGRAM_START as u16,
            delay_timer: 0,
            sound_timer: 0,
            stack: Seq::empty(),
            keys: Seq::new(16, |k: int| false),
        }
    }

    /// The machine with the font written over the first eighty bytes.
    pub open spec fn with_font(self) -> Machine {
        Machine {
            memory: Seq::new(
                self.memory.len(),
                |a: int| if a < 80 { font_table()[a] } else { self.memory[a] },
            ),
            ..self
        }
    }

    /// The machine with `rom` written to memory from `PROGRAM_START` on.
    pub open spec fn with_rom(self, rom: Seq<u8>) -> Machine {
        Machine {
            memory: Seq::new(
                self.memory.len(),
                |a: int|
                    if PROGRAM_START <= a < PROGRAM_START + rom.len() {
                        rom[a - PROGRAM_START]
                    } else {
                        self.memory[a]
                    },
            ),
            ..self
        }
    }

    /// The machine with key `k` down or up.
    pub open spec fn with_key(self, k: int, pressed: bool) -> Machine {
        Machine { keys: self.keys.update(k, pressed), ..self }
    }

    /// The machine after one timer tick: each timer that is running has
    /// counted down by one.
    pub open spec fn tick(self) -> Machine {
        Machine {
            delay_timer: if self.delay_timer > 0 { (self.delay_timer - 1) as u8 } else { 0 },
            sound_timer: if self.sound_timer > 0 { (self.sound_timer - 1) as u8 } else { 0 },
            ..self
        }
    }

    /// Whether the next timer tick ends a sound: the sound timer stands at 1.
    pub open spec fn beeps(self) -> bool {
        self.sound_timer == 1
    }

    /// Register `Vx`.
    pub open spec fn v(self, x: u8) -> u8 {
        self.registers[x as int]
    }

    /// The machine with `Vx` set to `value`.
    pub open spec fn with_v(self, x: u8, value: u8) -> Machine {
        Machine { registers: self.registers.update(x as int, value), ..self }
    }

    /// The machine with the program counter set to `pc`.
    pub open spec fn with_pc(self, pc: u16) -> Machine {
        Machine { pc, ..self }
    }

    /// Whether both bytes of the word at the program counter lie in memory.
    pub open spec fn can_fetch(self) -> bool {
        self.pc + 1 < 4096
    }

    /// The big-endian word at the program counter.
    pub open spec fn word_at_pc(self) -> u16 {
        (self.memory[self.pc as int] * 256 + self.memory[self.pc + 1]) as u16
    }

    /// The machine after the fetch: the word is latched and the program
    /// counter points past it.
    pub open spec fn fetched(self) -> Machine {
        Machine { opcode: self.word_at_pc(), pc: (self.pc + 2) as u16, ..self }
    }

    /// The `n` bytes at `I` onwards.
    pub open spec fn sprite(self, n: u8) -> Seq<u8> {
        self.memory.subrange(self.index as int, self.index + n)
    }

    /// Why `instr` cannot be carried out, or `None` where it can.
    pub open spec fn fault(self, instr: Instruction) -> Option<Chip8Error> {
        match instr {
            Instruction::Return => if self.stack.len() == 0 {
                Some(Chip8Error::StackUnderflow)
            } else {
                None
            },
            Instruction::Call { addr } => if self.stack.len() >= 16 {
                Some(Chip8Error::StackOverflow)
            } else {
                None
            },
            Instruction::Draw { x, y, n } => if self.index + n > 4096 {
                Some(Chip8Error::MemoryOutOfBounds)
            } else {
                None
            },
            Instruction::SkipKeyDown { x } | Instruction::SkipKeyUp { x } => if self.v(x) >= 16 {
                Some(Chip8Error::KeyOutOfRange)
            } else {
                None
            },
            Instruction::StoreBcd { x } => if self.index + 2 >= 4096 {
                Some(Chip8Error::MemoryOutOfBounds)
            } else {
                None
            },
            Instruction::StoreRegisters { x } | Instruction::LoadRegisters { x } => if self.index
                + x >= 4096 {
                Some(Chip8Error::MemoryOutOfBounds)
            } else {
                None
            },
            _ => None,
        }
    }

    /// The machine after `instr` has been carried out, where nothing stands
    /// in its way. `self` is the machine after the fetch; `random` is the
    /// byte that `Random` draws.
    pub open spec fn apply(self, instr: Instruction, random: u8) -> Machine {
        match instr {
            Instruction::ClearScreen => Machine { screen: blank_screen(), ..self },
            Instruction::Return => Machine {
                pc: self.stack.last(),
                stack: self.stack.drop_last(),
                ..self
            },
            Instruction::Jump { addr } => self.with_pc(addr),
            Instruction::Call { addr } => Machine {
                pc: addr,
                stack: self.stack.push(self.pc),
                ..self
            },
            Instruction::SkipEqImm { x, kk } => self.with_pc(skip_if(self.pc, self.v(x) == kk)),
            Instruction::SkipNeImm { x, kk } => self.with_pc(skip_if(self.pc, self.v(x) != kk)),
            Instruction::SkipEqReg { x, y } => self.with_pc(
                skip_if(self.pc, self.v(x) == self.v(y)),
            ),
            Instruction::SkipNeReg { x, y } => self.with_pc(
                skip_if(self.pc, self.v(x) != self.v(y)),
            ),
            Instruction::LoadImm { x, kk } => self.with_v(x, kk),
            Instruction::AddImm { x, kk } => self.with_v(x, ((self.v(x) + kk) % 256) as u8),
            Instruction::Or { x, y } => self.with_v(x, self.v(x) | self.v(y)),
            Instruction::And { x, y } => self.with_v(x, self.v(x) & self.v(y)),
            Instruction::Xor { x, y } => self.with_v(x, self.v(x) ^ self.v(y)),
            Instruction::AddReg { x, y } => {
                let sum: int = self.v(x) + self.v(y);
                self.with_v(x, (sum % 256) as u8).with_v(FLAG, flag_of(sum >= 256))
            },
            Instruction::SubReg { x, y } => {
                let difference: int = self.v(x) - self.v(y);
                self.with_v(x, (difference % 256) as u8).with_v(FLAG, flag_of(self.v(x) >= self.v(y)))
            },
            Instruction::SubFrom { x, y } => {
                let difference: int = self.v(y) - self.v(x);
                self.with_v(x, (difference % 256) as u8).with_v(FLAG, flag_of(self.v(y) >= self.v(x)))
            },
            Instruction::ShiftRight { x } => {
                let flagged: Machine = self.with_v(FLAG, (self.v(x) % 2) as u8);
                flagged.with_v(x, (flagged.v(x) / 2) as u8)
            },
            Instruction::ShiftLeft { x } => {
                let flagged: Machine = self.with_v(FLAG, (self.v(x) / 128) as u8);
                flagged.with_v(x, ((flagged.v(x) * 2) % 256) as u8)
            },
            Instruction::LoadIndex { addr } => Machine { index: addr, ..self },
            Instruction::JumpOffset { addr } => self.with_pc((addr + self.v(0)) as u16),
            Instruction::Random { x, kk } => self.with_v(x, random & kk),
            Instruction::Draw { x, y, n } => {
                let sprite: Seq<u8> = self.sprite(n);
                let vx: int = self.v(x) as int;
                let vy: int = self.v(y) as int;
                Machine {
                    screen: draw_sprite(self.screen, sprite, vx, vy),
                    ..self.with_v(FLAG, flag_of(sprite_collides(self.screen, sprite, vx, vy)))
                }
            },
            Instruction::SkipKeyDown { x } => self.with_pc(
                skip_if(self.pc, self.keys[self.v(x) as int]),
            ),
            Instruction::SkipKeyUp { x } => self.with_pc(
                skip_if(self.pc, !self.keys[self.v(x) as int]),
            ),
            Instruction::LoadDelay { x } => self.with_v(x, self.delay_timer),
            Instruction::WaitKey { x } => match lowest_down(self.keys) {
                Some(k) => self.with_v(x, k as u8),
                None => self.with_pc((self.pc - 2) as u16),
            },
            Instruction::SetDelay { x } => Machine { delay_timer: self.v(x), ..self },
            Instruction::SetSound { x } => Machine { sound_timer: self.v(x), ..self },
            Instruction::AddIndex { x } => Machine {
                index: ((self.index + self.v(x)) % 0x1_0000) as u16,
                ..self
            },
            Instruction::LoadGlyph { x } => Machine {
                index: glyph_address(self.v(x) as int) as u16,
                ..self
            },
            Instruction::StoreBcd { x } => {
                let value: int = self.v(x) as int;
                let at: int = self.index as int;
                Machine {
                    memory: self.memory.update(at, (value / 100) as u8).update(
                        at + 1,
                        ((value / 10) % 10) as u8,
                    ).update(at + 2, (value % 10) as u8),
                    ..self
                }
            },
            Instruction::StoreRegisters { x } => Machine {
                memory: Seq::new(
                    self.memory.len(),
                    |a: int|
                        if self.index <= a <= self.index + x {
                            self.registers[a - self.index]
                        } else {
                            self.memory[a]
                        },
                ),
                ..self
            },
            Instruction::LoadRegisters { x } => Machine {
                registers: Seq::new(
                    self.registers.len(),
                    |r: int| if r <= x { self.memory[self.index + r] } else { self.registers[r] },
                ),
                ..self
            },
        }
    }

    /// What carrying out `instr` makes of the machine after the fetch: the
    /// fault and the machine as it is, or the machine that `apply` gives.
    pub open spec fn perform(self, instr: Instruction, random: u8) -> (
        Machine,
        Result<(), Chip8Error>,
    ) {
        match self.fault(instr) {
            Some(e) => (self, Err(e)),
            None => (self.apply(instr, random), Ok(())),
        }
    }

    /// What running the word `word` does to the machine after the fetch.
    pub open spec fn execute(self, word: u16, random: u8) -> (Machine, Result<(), Chip8Error>) {
        match decode_word(word) {
            None => (self, Err(Chip8Error::UnknownOpcode)),
            Some(instr) => self.perform(instr, random),
        }
    }

    /// Whether the next cycle draws a random byte: the word at the program
    /// counter can be fetched and is a `Cxkk`.
    pub open spec fn draws_random(self) -> bool {
        self.can_fetch() && decode_word(self.word_at_pc()) matches Some(
            Instruction::Random { .. },
        )
    }

    /// What one cycle does to the machine. `random` is the byte drawn, should
    /// the instruction ask for one.
    pub open spec fn step(self, random: u8) -> (Machine, Result<(), Chip8Error>) {
        if self.can_fetch() {
            self.fetched().execute(self.word_at_pc(), random)
        } else {
            (self, Err(Chip8Error::MemoryOutOfBounds))
        }
    }
}

} // verus!
