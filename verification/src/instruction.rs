//! Instruction words and their decoding.
//!
//! An instruction is one big-endian 16-bit word. Its high nibble selects a
//! family; some families are told apart further by the low nibble or the low
//! byte. The operands sit at fixed positions of the word.

use vstd::arithmetic::div_mod::lemma_fundamental_div_mod_converse;
use vstd::prelude::*;

verus! {

/// One decoded instruction. `x` and `y` name general registers, `kk` is an
/// 8-bit literal, `n` a 4-bit literal and `addr` a 12-bit address.
#[derive(Clone, Copy, Debug, PartialEq, Eq, Structural)]
pub enum Instruction {
    /// `00E0`: switch every pixel off.
    ClearScreen,
    /// `00EE`: return from a subroutine.
    Return,
    /// `1nnn`: jump to `addr`.
    Jump { addr: u16 },
    /// `2nnn`: call the subroutine at `addr`.
    Call { addr: u16 },
    /// `3xkk`: skip the next instruction if `Vx == kk`.
    SkipEqImm { x: u8, kk: u8 },
    /// `4xkk`: skip the next instruction if `Vx != kk`.
    SkipNeImm { x: u8, kk: u8 },
    /// `5xy0`: skip the next instruction if `Vx == Vy`.
    SkipEqReg { x: u8, y: u8 },
    /// `6xkk`: `Vx = kk`.
    LoadImm { x: u8, kk: u8 },
    /// `7xkk`: `Vx = Vx + kk`, wrapping, flag untouched.
    AddImm { x: u8, kk: u8 },
    /// `8xy1`: `Vx = Vx | Vy`.
    Or { x: u8, y: u8 },
    /// `8xy2`: `Vx = Vx & Vy`.
    And { x: u8, y: u8 },
    /// `8xy3`: `Vx = Vx ^ Vy`.
    Xor { x: u8, y: u8 },
    /// `8xy4`: `Vx = Vx + Vy`, wrapping; `VF` is the carry.
    AddReg { x: u8, y: u8 },
    /// `8xy5`: `Vx = Vx - Vy`, wrapping; `VF` is 1 when nothing was borrowed.
    SubReg { x: u8, y: u8 },
    /// `8xy6`: `VF` is the low bit of `Vx`, then `Vx` is halved.
    ShiftRight { x: u8 },
    /// `8xy7`: `Vx = Vy - Vx`, wrapping; `VF` is 1 when nothing was borrowed.
    SubFrom { x: u8, y: u8 },
    /// `8xyE`: `VF` is the high bit of `Vx`, then `Vx` is doubled, wrapping.
    ShiftLeft { x: u8 },
    /// `9xy0`: skip the next instruction if `Vx != Vy`.
    SkipNeReg { x: u8, y: u8 },
    /// `Annn`: `I = addr`.
    LoadIndex { addr: u16 },
    /// `Bnnn`: jump to `addr + V0`.
    JumpOffset { addr: u16 },
    /// `Cxkk`: `Vx = random byte & kk`.
    Random { x: u8, kk: u8 },
    /// `Dxyn`: draw the `n`-row sprite at `I` at position `(Vx, Vy)`.
    Draw { x: u8, y: u8, n: u8 },
    /// `Ex9E`: skip the next instruction if key `Vx` is down.
    SkipKeyDown { x: u8 },
    /// `ExA1`: skip the next instruction if key `Vx` is up.
    SkipKeyUp { x: u8 },
    /// `Fx07`: `Vx = delay timer`.
    LoadDelay { x: u8 },
    /// `Fx0A`: wait for a key and store its index in `Vx`.
    WaitKey { x: u8 },
    /// `Fx15`: `delay timer = Vx`.
    SetDelay { x: u8 },
    /// `Fx18`: `sound timer = Vx`.
    SetSound { x: u8 },
    /// `Fx1E`: `I = I + Vx`, wrapping at 16 bits, flag untouched.
    AddIndex { x: u8 },
    /// `Fx29`: `I = 5 * Vx`, the address of a font glyph.
    LoadGlyph { x: u8 },
    /// `Fx33`: store the three decimal digits of `Vx` at `I`, `I+1`, `I+2`.
    StoreBcd { x: u8 },
    /// `Fx55`: store `V0..=Vx` at `I` onwards.
    StoreRegisters { x: u8 },
    /// `Fx65`: load `V0..=Vx` from `I` onwards.
    LoadRegisters { x: u8 },
}

/// The family selector: the first hexadecimal digit of the word.
pub open spec fn family_of(word: u16) -> int {
    word as int / 4096
}

/// The operand `x`: the second hexadecimal digit of the word.
pub open spec fn x_of(word: u16) -> u8 {
    ((word as int / 256) % 16) as u8
}

/// The operand `y`: the third hexadecimal digit of the word.
pub open spec fn y_of(word: u16) -> u8 {
    ((word as int / 16) % 16) as u8
}

/// The operand `n`: the last hexadecimal digit of the word.
pub open spec fn n_of(word: u16) -> u8 {
    (word as int % 16) as u8
}

/// The operand `kk`: the low byte of the word.
pub open spec fn kk_of(word: u16) -> u8 {
    (word as int % 256) as u8
}

/// The operand `nnn`: the low twelve bits of the word.
pub open spec fn nnn_of(word: u16) -> u16 {
    (word as int % 4096) as u16
}

/// The word with the hexadecimal digits `f`, `x`, `y`, `n`, first to last.
pub open spec fn word_xyn(f: int, x: int, y: int, n: int) -> int {
    f * 4096 + x * 256 + y * 16 + n
}

/// The word with the first digit `f`, the second digit `x` and the low byte `kk`.
pub open spec fn word_xkk(f: int, x: int, kk: int) -> int {
    f * 4096 + x * 256 + kk
}

/// The word with the first digit `f` and the low twelve bits `nnn`.
pub open spec fn word_nnn(f: int, nnn: int) -> int {
    f * 4096 + nnn
}

impl Instruction {
    /// Every operand lies within the width of its field.
    pub open spec fn wf(self) -> bool {
        match self {
            Instruction::ClearScreen | Instruction::Return => true,
            Instruction::Jump { addr }
            | Instruction::Call { addr }
            | Instruction::LoadIndex { addr }
            | Instruction::JumpOffset { addr } => addr < 4096,
            Instruction::SkipEqImm { x, kk }
            | Instruction::SkipNeImm { x, kk }
            | Instruction::LoadImm { x, kk }
            | Instruction::AddImm { x, kk }
            | Instruction::Random { x, kk } => x < 16,
            Instruction::SkipEqReg { x, y }
            | Instruction::Or { x, y }
            | Instruction::And { x, y }
            | Instruction::Xor { x, y }
            | Instruction::AddReg { x, y }
            | Instruction::SubReg { x, y }
            | Instruction::SubFrom { x, y }
            | Instruction::SkipNeReg { x, y } => x < 16 && y < 16,
            Instruction::Draw { x, y, n } => x < 16 && y < 16 && n < 16,
            Instruction::ShiftRight { x }
            | Instruction::ShiftLeft { x }
            | Instruction::SkipKeyDown { x }
            | Instruction::SkipKeyUp { x }
            | Instruction::LoadDelay { x }
            | Instruction::WaitKey { x }
            | Instruction::SetDelay { x }
            | Instruction::SetSound { x }
            | Instruction::AddIndex { x }
            | Instruction::LoadGlyph { x }
            | Instruction::StoreBcd { x }
            | Instruction::StoreRegisters { x }
            | Instruction::LoadRegisters { x } => x < 16,
        }
    }
}

/// The instruction that `word` encodes, or `None` where the word matches no
/// pattern of the instruction set.
#[verifier::opaque]
pub open spec fn decode_word(word: u16) -> Option<Instruction> {
    let x: u8 = x_of(word);
    let y: u8 = y_of(word);
    let n: u8 = n_of(word);
    let kk: u8 = kk_of(word);
    let addr: u16 = nnn_of(word);
    let family: int = family_of(word);
    if family == 0x0 {
        if word == 0x00E0 {
            Some(Instruction::ClearScreen)
        } else if word == 0x00EE {
            Some(Instruction::Return)
        } else {
            None
        }
    } else if family == 0x1 {
        Some(Instruction::Jump { addr })
    } else if family == 0x2 {
        Some(Instruction::Call { addr })
    } else if family == 0x3 {
        Some(Instruction::SkipEqImm { x, kk })
    } else if family == 0x4 {
        Some(Instruction::SkipNeImm { x, kk })
    } else if family == 0x5 {
        if n == 0 {
            Some(Instruction::SkipEqReg { x, y })
        } else {
            None
        }
    } else if family == 0x6 {
        Some(Instruction::LoadImm { x, kk })
    } else if family == 0x7 {
        Some(Instruction::AddImm { x, kk })
    } else if family == 0x8 {
        if n == 0x1 {
            Some(Instruction::Or { x, y })
        } else if n == 0x2 {
            Some(Instruction::And { x, y })
        } else if n == 0x3 {
            Some(Instruction::Xor { x, y })
        } else if n == 0x4 {
            Some(Instruction::AddReg { x, y })
        } else if n == 0x5 {
            Some(Instruction::SubReg { x, y })
        } else if n == 0x6 {
            Some(Instruction::ShiftRight { x })
        } else if n == 0x7 {
            Some(Instruction::SubFrom { x, y })
        } else if n == 0xE {
            Some(Instruction::ShiftLeft { x })
        } else {
            None
        }
    } else if family == 0x9 {
        if n == 0 {
            Some(Instruction::SkipNeReg { x, y })
        } else {
            None
        }
    } else if family == 0xA {
        Some(Instruction::LoadIndex { addr })
    } else if family == 0xB {
        Some(Instruction::JumpOffset { addr })
    } else if family == 0xC {
        Some(Instruction::Random { x, kk })
    } else if family == 0xD {
        Some(Instruction::Draw { x, y, n })
    } else if family == 0xE {
        if kk == 0x9E {
            Some(Instruction::SkipKeyDown { x })
        } else if kk == 0xA1 {
            Some(Instruction::SkipKeyUp { x })
        } else {
            None
        }
    } else {
        if kk == 0x07 {
            Some(Instruction::LoadDelay { x })
        } else if kk == 0x0A {
            Some(Instruction::WaitKey { x })
        } else if kk == 0x15 {
            Some(Instruction::SetDelay { x })
        } else if kk == 0x18 {
            Some(Instruction::SetSound { x })
        } else if kk == 0x1E {
            Some(Instruction::AddIndex { x })
        } else if kk == 0x29 {
            Some(Instruction::LoadGlyph { x })
        } else if kk == 0x33 {
            Some(Instruction::StoreBcd { x })
        } else if kk == 0x55 {
            Some(Instruction::StoreRegisters { x })
        } else if kk == 0x65 {
            Some(Instruction::LoadRegisters { x })
        } else {
            None
        }
    }
}

/// Whatever `decode_word` yields has its operands within their fields.
pub proof fn lemma_decoded_is_wf(word: u16)
    ensures
        decode_word(word) matches Some(instr) ==> instr.wf(),
{
    reveal(decode_word);
}

/// The digits of a word are recovered by the operand functions.
proof fn lemma_fields_xyn(f: int, x: int, y: int, n: int)
    requires
        0 <= f < 16,
        0 <= x < 16,
        0 <= y < 16,
        0 <= n < 16,
    ensures
        0 <= word_xyn(f, x, y, n) < 0x1_0000,
        family_of(word_xyn(f, x, y, n) as u16) == f,
        x_of(word_xyn(f, x, y, n) as u16) == x,
        y_of(word_xyn(f, x, y, n) as u16) == y,
        n_of(word_xyn(f, x, y, n) as u16) == n,
        kk_of(word_xyn(f, x, y, n) as u16) == y * 16 + n,
        nnn_of(word_xyn(f, x, y, n) as u16) == x * 256 + y * 16 + n,
{
    let w: int = word_xyn(f, x, y, n);
    lemma_fundamental_div_mod_converse(w, 4096, f, x * 256 + y * 16 + n);
    lemma_fundamental_div_mod_converse(w, 256, f * 16 + x, y * 16 + n);
    lemma_fundamental_div_mod_converse(f * 16 + x, 16, f, x);
    lemma_fundamental_div_mod_converse(w, 16, f * 256 + x * 16 + y, n);
    lemma_fundamental_div_mod_converse(f * 256 + x * 16 + y, 16, f * 16 + x, y);
}

/// The operands of a word given by its first two digits and its low byte.
proof fn lemma_fields_xkk(f: int, x: int, kk: int)
    requires
        0 <= f < 16,
        0 <= x < 16,
        0 <= kk < 256,
    ensures
        0 <= word_xkk(f, x, kk) < 0x1_0000,
        family_of(word_xkk(f, x, kk) as u16) == f,
        x_of(word_xkk(f, x, kk) as u16) == x,
        n_of(word_xkk(f, x, kk) as u16) == kk % 16,
        kk_of(word_xkk(f, x, kk) as u16) == kk,
{
    lemma_fields_xyn(f, x, kk / 16, kk % 16);
    assert(word_xyn(f, x, kk / 16, kk % 16) == word_xkk(f, x, kk));
}

/// The operands of a word given by its first digit and its low twelve bits.
proof fn lemma_fields_nnn(f: int, nnn: int)
    requires
        0 <= f < 16,
        0 <= nnn < 4096,
    ensures
        0 <= word_nnn(f, nnn) < 0x1_0000,
        family_of(word_nnn(f, nnn) as u16) == f,
        nnn_of(word_nnn(f, nnn) as u16) == nnn,
{
    let w: int = word_nnn(f, nnn);
    lemma_fundamental_div_mod_converse(w, 4096, f, nnn);
}

/// `00E0` and `00EE` are the two instructions without operands.
pub proof fn lemma_decode_fixed()
    ensures
        decode_word(0x00E0) == Some(Instruction::ClearScreen),
        decode_word(0x00EE) == Some(Instruction::Return),
{
    reveal(decode_word);
}

/// `1nnn`, `2nnn`, `Annn` and `Bnnn` carry an address.
pub proof fn lemma_decode_nnn(addr: u16)
    requires
        addr < 4096,
    ensures
        decode_word(word_nnn(0x1, addr as int) as u16) == Some(Instruction::Jump { addr }),
        decode_word(word_nnn(0x2, addr as int) as u16) == Some(Instruction::Call { addr }),
        decode_word(word_nnn(0xA, addr as int) as u16) == Some(Instruction::LoadIndex { addr }),
        decode_word(word_nnn(0xB, addr as int) as u16) == Some(Instruction::JumpOffset { addr }),
{
    reveal(decode_word);
    lemma_fields_nnn(0x1, addr as int);
    lemma_fields_nnn(0x2, addr as int);
    lemma_fields_nnn(0xA, addr as int);
    lemma_fields_nnn(0xB, addr as int);
}

/// `3xkk`, `4xkk`, `6xkk`, `7xkk` and `Cxkk` carry a register and a literal.
pub proof fn lemma_decode_xkk(x: u8, kk: u8)
    requires
        x < 16,
    ensures
        decode_word(word_xkk(0x3, x as int, kk as int) as u16) == Some(
            Instruction::SkipEqImm { x, kk },
        ),
        decode_word(word_xkk(0x4, x as int, kk as int) as u16) == Some(
            Instruction::SkipNeImm { x, kk },
        ),
        decode_word(word_xkk(0x6, x as int, kk as int) as u16) == Some(
            Instruction::LoadImm { x, kk },
        ),
        decode_word(word_xkk(0x7, x as int, kk as int) as u16) == Some(
            Instruction::AddImm { x, kk },
        ),
        decode_word(word_xkk(0xC, x as int, kk as int) as u16) == Some(
            Instruction::Random { x, kk },
        ),
{
    reveal(decode_word);
    lemma_fields_xkk(0x3, x as int, kk as int);
    lemma_fields_xkk(0x4, x as int, kk as int);
    lemma_fields_xkk(0x6, x as int, kk as int);
    lemma_fields_xkk(0x7, x as int, kk as int);
    lemma_fields_xkk(0xC, x as int, kk as int);
}

/// `5xy0` and `9xy0` compare two registers.
pub proof fn lemma_decode_compare(x: u8, y: u8)
    requires
        x < 16,
        y < 16,
    ensures
        decode_word(word_xyn(0x5, x as int, y as int, 0) as u16) == Some(
            Instruction::SkipEqReg { x, y },
        ),
        decode_word(word_xyn(0x9, x as int, y as int, 0) as u16) == Some(
            Instruction::SkipNeReg { x, y },
        ),
{
    reveal(decode_word);
    lemma_fields_xyn(0x5, x as int, y as int, 0);
    lemma_fields_xyn(0x9, x as int, y as int, 0);
}

/// `8xy1` to `8xy7` and `8xyE` compute `Vx` from `Vx` and `Vy`.
pub proof fn lemma_decode_alu(x: u8, y: u8)
    requires
        x < 16,
        y < 16,
    ensures
        decode_word(word_xyn(0x8, x as int, y as int, 0x1) as u16) == Some(
            Instruction::Or { x, y },
        ),
        decode_word(word_xyn(0x8, x as int, y as int, 0x2) as u16) == Some(
            Instruction::And { x, y },
        ),
        decode_word(word_xyn(0x8, x as int, y as int, 0x3) as u16) == Some(
            Instruction::Xor { x, y },
        ),
        decode_word(word_xyn(0x8, x as int, y as int, 0x4) as u16) == Some(
            Instruction::AddReg { x, y },
        ),
        decode_word(word_xyn(0x8, x as int, y as int, 0x5) as u16) == Some(
            Instruction::SubReg { x, y },
        ),
        decode_word(word_xyn(0x8, x as int, y as int, 0x6) as u16) == Some(
            Instruction::ShiftRight { x },
        ),
        decode_word(word_xyn(0x8, x as int, y as int, 0x7) as u16) == Some(
            Instruction::SubFrom { x, y },
        ),
        decode_word(word_xyn(0x8, x as int, y as int, 0xE) as u16) == Some(
            Instruction::ShiftLeft { x },
        ),
{
    reveal(decode_word);
    lemma_fields_xyn(0x8, x as int, y as int, 0x1);
    lemma_fields_xyn(0x8, x as int, y as int, 0x2);
    lemma_fields_xyn(0x8, x as int, y as int, 0x3);
    lemma_fields_xyn(0x8, x as int, y as int, 0x4);
    lemma_fields_xyn(0x8, x as int, y as int, 0x5);
    lemma_fields_xyn(0x8, x as int, y as int, 0x6);
    lemma_fields_xyn(0x8, x as int, y as int, 0x7);
    lemma_fields_xyn(0x8, x as int, y as int, 0xE);
}

/// `Dxyn` carries two registers and a row count.
pub proof fn lemma_decode_draw(x: u8, y: u8, n: u8)
    requires
        x < 16,
        y < 16,
        n < 16,
    ensures
        decode_word(word_xyn(0xD, x as int, y as int, n as int) as u16) == Some(
            Instruction::Draw { x, y, n },
        ),
{
    reveal(decode_word);
    lemma_fields_xyn(0xD, x as int, y as int, n as int);
}

/// `Ex9E` and `ExA1` look at a key.
pub proof fn lemma_decode_key(x: u8)
    requires
        x < 16,
    ensures
        decode_word(word_xkk(0xE, x as int, 0x9E) as u16) == Some(Instruction::SkipKeyDown { x }),
        decode_word(word_xkk(0xE, x as int, 0xA1) as u16) == Some(Instruction::SkipKeyUp { x }),
{
    reveal(decode_word);
    lemma_fields_xkk(0xE, x as int, 0x9E);
    lemma_fields_xkk(0xE, x as int, 0xA1);
}

/// The nine instructions `Fx__` work with one register.
pub proof fn lemma_decode_misc(x: u8)
    requires
        x < 16,
    ensures
        decode_word(word_xkk(0xF, x as int, 0x07) as u16) == Some(Instruction::LoadDelay { x }),
        decode_word(word_xkk(0xF, x as int, 0x0A) as u16) == Some(Instruction::WaitKey { x }),
        decode_word(word_xkk(0xF, x as int, 0x15) as u16) == Some(Instruction::SetDelay { x }),
        decode_word(word_xkk(0xF, x as int, 0x18) as u16) == Some(Instruction::SetSound { x }),
        decode_word(word_xkk(0xF, x as int, 0x1E) as u16) == Some(Instruction::AddIndex { x }),
        decode_word(word_xkk(0xF, x as int, 0x29) as u16) == Some(Instruction::LoadGlyph { x }),
        decode_word(word_xkk(0xF, x as int, 0x33) as u16) == Some(Instruction::StoreBcd { x }),
        decode_word(word_xkk(0xF, x as int, 0x55) as u16) == Some(
            Instruction::StoreRegisters { x },
        ),
        decode_word(word_xkk(0xF, x as int, 0x65) as u16) == Some(
            Instruction::LoadRegisters { x },
        ),
{
    reveal(decode_word);
    lemma_fields_xkk(0xF, x as int, 0x07);
    lemma_fields_xkk(0xF, x as int, 0x0A);
    lemma_fields_xkk(0xF, x as int, 0x15);
    lemma_fields_xkk(0xF, x as int, 0x18);
    lemma_fields_xkk(0xF, x as int, 0x1E);
    lemma_fields_xkk(0xF, x as int, 0x29);
    lemma_fields_xkk(0xF, x as int, 0x33);
    lemma_fields_xkk(0xF, x as int, 0x55);
    lemma_fields_xkk(0xF, x as int, 0x65);
}

/// Splits a word into its operand fields with masks and shifts.
fn fields(word: u16) -> (r: (u8, u8, u8, u8, u8, u16))
    ensures
        r.0 == family_of(word),
        r.1 == x_of(word),
        r.2 == y_of(word),
        r.3 == n_of(word),
        r.4 == kk_of(word),
        r.5 == nnn_of(word),
{
    let family: u16 = (word & 0xF000) >> 12;
    let x: u16 = (word & 0x0F00) >> 8;
    let y: u16 = (word & 0x00F0) >> 4;
    let n: u16 = word & 0x000F;
    let kk: u16 = word & 0x00FF;
    let addr: u16 = word & 0x0FFF;
    assert(family == word / 4096 && family < 16) by (bit_vector)
        requires
            family == (word & 0xF000) >> 12,
    ;
    assert(x == (word / 256) % 16 && x < 16) by (bit_vector)
        requires
            x == (word & 0x0F00) >> 8,
    ;
    assert(y == (word / 16) % 16 && y < 16) by (bit_vector)
        requires
            y == (word & 0x00F0) >> 4,
    ;
    assert(n == word % 16 && n < 16) by (bit_vector)
        requires
            n == word & 0x000F,
    ;
    assert(kk == word % 256 && kk < 256) by (bit_vector)
        requires
            kk == word & 0x00FF,
    ;
    assert(addr == word % 4096 && addr < 4096) by (bit_vector)
        requires
            addr == word & 0x0FFF,
    ;
    (family as u8, x as u8, y as u8, n as u8, kk as u8, addr)
}

/// Decodes one instruction word.
///
/// Returns `None` exactly for the words that match no pattern: these are the
/// words an interpreter reports as unknown.
pub fn decode(word: u16) -> (r: Option<Instruction>)
    ensures
        r == decode_word(word),
        r matches Some(instr) ==> instr.wf(),
{
    proof {
        reveal(decode_word);
    }
    let (family, x, y, n, kk, addr) = fields(word);
    match family {
        0x0 => match word {
            0x00E0 => Some(Instruction::ClearScreen),
            0x00EE => Some(Instruction::Return),
            _ => None,
        },
        0x1 => Some(Instruction::Jump { addr }),
        0x2 => Some(Instruction::Call { addr }),
        0x3 => Some(Instruction::SkipEqImm { x, kk }),
        0x4 => Some(Instruction::SkipNeImm { x, kk }),
        0x5 => match n {
            0x0 => Some(Instruction::SkipEqReg { x, y }),
            _ => None,
        },
        0x6 => Some(Instruction::LoadImm { x, kk }),
        0x7 => Some(Instruction::AddImm { x, kk }),
        0x8 => match n {
            0x1 => Some(Instruction::Or { x, y }),
            0x2 => Some(Instruction::And { x, y }),
            0x3 => Some(Instruction::Xor { x, y }),
            0x4 => Some(Instruction::AddReg { x, y }),
            0x5 => Some(Instruction::SubReg { x, y }),
            0x6 => Some(Instruction::ShiftRight { x }),
            0x7 => Some(Instruction::SubFrom { x, y }),
            0xE => Some(Instruction::ShiftLeft { x }),
            _ => None,
        },
        0x9 => match n {
            0x0 => Some(Instruction::SkipNeReg { x, y }),
            _ => None,
        },
        0xA => Some(Instruction::LoadIndex { addr }),
        0xB => Some(Instruction::JumpOffset { addr }),
        0xC => Some(Instruction::Random { x, kk }),
        0xD => Some(Instruction::Draw { x, y, n }),
        0xE => match kk {
            0x9E => Some(Instruction::SkipKeyDown { x }),
            0xA1 => Some(Instruction::SkipKeyUp { x }),
            _ => None,
        },
        _ => match kk {
            0x07 => Some(Instruction::LoadDelay { x }),
            0x0A => Some(Instruction::WaitKey { x }),
            0x15 => Some(Instruction::SetDelay { x }),
            0x18 => Some(Instruction::SetSound { x }),
            0x1E => Some(Instruction::AddIndex { x }),
            0x29 => Some(Instruction::LoadGlyph { x }),
            0x33 => Some(Instruction::StoreBcd { x }),
            0x55 => Some(Instruction::StoreRegisters { x }),
            0x65 => Some(Instruction::LoadRegisters { x }),
            _ => None,
        },
    }
}

} // verus!
