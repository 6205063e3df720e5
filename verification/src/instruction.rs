//! Decoding of 16-bit instruction words.

use vstd::prelude::*;

verus! {

/// A decoded instruction. Register operands are register numbers, `0` to `15`.
#[derive(Clone, Copy, Debug, PartialEq, Eq, Structural)]
pub enum Instruction {
    /// `00E0`: clear the display.
    ClearScreen,
    /// `00EE`: return from a subroutine.
    Return,
    /// `1nnn`: jump to `nnn`.
    Jump(u16),
    /// `2nnn`: call the subroutine at `nnn`.
    Call(u16),
    /// `3xnn`: skip the next instruction if `Vx == nn`.
    SkipIfEqual(u8, u8),
    /// `4xnn`: skip the next instruction if `Vx != nn`.
    SkipIfNotEqual(u8, u8),
    /// `5xy0`: skip the next instruction if `Vx == Vy`.
    SkipIfSame(u8, u8),
    /// `6xnn`: `Vx := nn`.
    LoadByte(u8, u8),
    /// `7xnn`: `Vx := Vx + nn`, wrapping, flag untouched.
    AddByte(u8, u8),
    /// `8xy0`: `Vx := Vy`.
    Copy(u8, u8),
    /// `8xy1`: `Vx := Vx | Vy`.
    Or(u8, u8),
    /// `8xy2`: `Vx := Vx & Vy`.
    And(u8, u8),
    /// `8xy3`: `Vx := Vx ^ Vy`.
    Xor(u8, u8),
    /// `8xy4`: `Vx := Vx + Vy` with carry in `VF`.
    Add(u8, u8),
    /// `8xy5`: `Vx := Vx - Vy` with no-borrow in `VF`.
    Subtract(u8, u8),
    /// `8xy6`: `Vx := Vx >> 1` with the bit shifted out in `VF`.
    ShiftRight(u8),
    /// `8xy7`: `Vx := Vy - Vx` with no-borrow in `VF`.
    SubtractFrom(u8, u8),
    /// `8xyE`: `Vx := Vx << 1` with the bit shifted out in `VF`.
    ShiftLeft(u8),
    /// `9xy0`: skip the next instruction if `Vx != Vy`.
    SkipIfDifferent(u8, u8),
    /// `Annn`: `I := nnn`.
    LoadIndex(u16),
    /// `Bnnn`: jump to `nnn + V0`.
    JumpOffset(u16),
    /// `Cxnn`: `Vx := random byte & nn`.
    Random(u8, u8),
    /// `Dxyn`: draw the `n`-row sprite at `I` at position `(Vx, Vy)`.
    Draw(u8, u8, u8),
    /// `Ex9E`: skip the next instruction if the key named by `Vx` is down.
    SkipIfKey(u8),
    /// `ExA1`: skip the next instruction if the key named by `Vx` is up.
    SkipIfNoKey(u8),
    /// `Fx07`: `Vx := delay timer`.
    ReadDelay(u8),
    /// `Fx0A`: wait for a key and put its number into `Vx`.
    WaitKey(u8),
    /// `Fx15`: `delay timer := Vx`.
    SetDelay(u8),
    /// `Fx18`: `sound timer := Vx`.
    SetSound(u8),
    /// `Fx1E`: `I := I + Vx` with overflow past `0xFFF` in `VF`.
    AddIndex(u8),
    /// `Fx33`: store the decimal digits of `Vx` at `I`, `I + 1`, `I + 2`.
    StoreDigits(u8),
    /// `Fx55`: store `V0..=Vx` at `I` onwards.
    StoreRegisters(u8),
    /// `Fx65`: load `V0..=Vx` from `I` onwards.
    LoadRegisters(u8),
    /// Any other word.
    Unknown(u16),
}

impl Instruction {
    /// Register numbers are below 16, addresses below 4096 and a sprite has
    /// at most 15 rows.
    pub open spec fn wf(self) -> bool {
        match self {
            Instruction::ClearScreen | Instruction::Return | Instruction::Unknown(_) => true,
            Instruction::Jump(a)
            | Instruction::Call(a)
            | Instruction::LoadIndex(a)
            | Instruction::JumpOffset(a) => a < 4096,
            Instruction::SkipIfEqual(x, _)
            | Instruction::SkipIfNotEqual(x, _)
            | Instruction::LoadByte(x, _)
            | Instruction::AddByte(x, _)
            | Instruction::Random(x, _) => x < 16,
            Instruction::SkipIfSame(x, y)
            | Instruction::Copy(x, y)
            | Instruction::Or(x, y)
            | Instruction::And(x, y)
            | Instruction::Xor(x, y)
            | Instruction::Add(x, y)
            | Instruction::Subtract(x, y)
            | Instruction::SubtractFrom(x, y)
            | Instruction::SkipIfDifferent(x, y) => x < 16 && y < 16,
            Instruction::Draw(x, y, n) => x < 16 && y < 16 && n < 16,
            Instruction::ShiftRight(x)
            | Instruction::ShiftLeft(x)
            | Instruction::SkipIfKey(x)
            | Instruction::SkipIfNoKey(x)
            | Instruction::ReadDelay(x)
            | Instruction::WaitKey(x)
            | Instruction::SetDelay(x)
            | Instruction::SetSound(x)
            | Instruction::AddIndex(x)
            | Instruction::StoreDigits(x)
            | Instruction::StoreRegisters(x)
            | Instruction::LoadRegisters(x) => x < 16,
        }
    }
}

/// The operation selector of a word: its highest four bits.
pub open spec fn family_of(opcode: u16) -> int {
    opcode as int / 0x1000
}

/// The field `x` of a word: bits 8 to 11.
pub open spec fn x_of(opcode: u16) -> u8 {
    ((opcode as int / 0x100) % 16) as u8
}

/// The field `y` of a word: bits 4 to 7.
pub open spec fn y_of(opcode: u16) -> u8 {
    ((opcode as int / 0x10) % 16) as u8
}

/// The field `n` of a word: its lowest four bits.
pub open spec fn n_of(opcode: u16) -> u8 {
    (opcode as int % 16) as u8
}

/// The field `nn` of a word: its low byte.
pub open spec fn nn_of(opcode: u16) -> u8 {
    (opcode as int % 0x100) as u8
}

/// The field `nnn` of a word: its lowest twelve bits.
pub open spec fn nnn_of(opcode: u16) -> u16 {
    (opcode as int % 0x1000) as u16
}

/// The instruction that a word encodes.
pub open spec fn decode_word(opcode: u16) -> Instruction {
    let x = x_of(opcode);
    let y = y_of(opcode);
    let n = n_of(opcode);
    let nn = nn_of(opcode);
    let nnn = nnn_of(opcode);
    let family = family_of(opcode);
    if opcode == 0x00E0 {
        Instruction::ClearScreen
    } else if opcode == 0x00EE {
        Instruction::Return
    } else if family == 0x1 {
        Instruction::Jump(nnn)
    } else if family == 0x2 {
        Instruction::Call(nnn)
    } else if family == 0x3 {
        Instruction::SkipIfEqual(x, nn)
    } else if family == 0x4 {
        Instruction::SkipIfNotEqual(x, nn)
    } else if family == 0x5 && n == 0 {
        Instruction::SkipIfSame(x, y)
    } else if family == 0x6 {
        Instruction::LoadByte(x, nn)
    } else if family == 0x7 {
        Instruction::AddByte(x, nn)
    } else if family == 0x8 && n == 0x0 {
        Instruction::Copy(x, y)
    } else if family == 0x8 && n == 0x1 {
        Instruction::Or(x, y)
    } else if family == 0x8 && n == 0x2 {
        Instruction::And(x, y)
    } else if family == 0x8 && n == 0x3 {
        Instruction::Xor(x, y)
    } else if family == 0x8 && n == 0x4 {
        Instruction::Add(x, y)
    } else if family == 0x8 && n == 0x5 {
        Instruction::Subtract(x, y)
    } else if family == 0x8 && n == 0x6 {
        Instruction::ShiftRight(x)
    } else if family == 0x8 && n == 0x7 {
        Instruction::SubtractFrom(x, y)
    } else if family == 0x8 && n == 0xE {
        Instruction::ShiftLeft(x)
    } else if family == 0x9 && n == 0 {
        Instruction::SkipIfDifferent(x, y)
    } else if family == 0xA {
        Instruction::LoadIndex(nnn)
    } else if family == 0xB {
        Instruction::JumpOffset(nnn)
    } else if family == 0xC {
        Instruction::Random(x, nn)
    } else if family == 0xD {
        Instruction::Draw(x, y, n)
    } else if family == 0xE && nn == 0x9E {
        Instruction::SkipIfKey(x)
    } else if family == 0xE && nn == 0xA1 {
        Instruction::SkipIfNoKey(x)
    } else if family == 0xF && nn == 0x07 {
        Instruction::ReadDelay(x)
    } else if family == 0xF && nn == 0x0A {
        Instruction::WaitKey(x)
    } else if family == 0xF && nn == 0x15 {
        Instruction::SetDelay(x)
    } else if family == 0xF && nn == 0x18 {
        Instruction::SetSound(x)
    } else if family == 0xF && nn == 0x1E {
        Instruction::AddIndex(x)
    } else if family == 0xF && nn == 0x33 {
        Instruction::StoreDigits(x)
    } else if family == 0xF && nn == 0x55 {
        Instruction::StoreRegisters(x)
    } else if family == 0xF && nn == 0x65 {
        Instruction::LoadRegisters(x)
    } else {
        Instruction::Unknown(opcode)
    }
}

/// Every word decodes to an instruction whose operands are in range.
pub proof fn lemma_decode_wf(opcode: u16)
    ensures
        decode_word(opcode).wf(),
{
}

/// Decodes one instruction word.
pub fn decode(opcode: u16) -> (ins: Instruction)
    ensures
        ins == decode_word(opcode),
        ins.wf(),
{
    let family: u16 = opcode >> 12;
    let x: u8 = ((opcode >> 8) & 0xF) as u8;
    let y: u8 = ((opcode >> 4) & 0xF) as u8;
    let n: u8 = (opcode & 0xF) as u8;
    let nn: u8 = (opcode & 0xFF) as u8;
    let nnn: u16 = opcode & 0xFFF;
    proof {
        assert(opcode >> 12 == opcode / 0x1000) by (bit_vector);
        assert((opcode >> 8) & 0xF == (opcode / 0x100) % 16) by (bit_vector);
        assert((opcode >> 4) & 0xF == (opcode / 0x10) % 16) by (bit_vector);
        assert(opcode & 0xF == opcode % 16) by (bit_vector);
        assert(opcode & 0xFF == opcode % 0x100) by (bit_vector);
        assert(opcode & 0xFFF == opcode % 0x1000) by (bit_vector);
    }
    match family {
        0x0 => {
            if opcode == 0x00E0 {
                Instruction::ClearScreen
            } else if opcode == 0x00EE {
                Instruction::Return
            } else {
                Instruction::Unknown(opcode)
            }
        },
        0x1 => Instruction::Jump(nnn),
        0x2 => Instruction::Call(nnn),
        0x3 => Instruction::SkipIfEqual(x, nn),
        0x4 => Instruction::SkipIfNotEqual(x, nn),
        0x5 => {
            if n == 0 {
                Instruction::SkipIfSame(x, y)
            } else {
                Instruction::Unknown(opcode)
            }
        },
        0x6 => Instruction::LoadByte(x, nn),
        0x7 => Instruction::AddByte(x, nn),
        0x8 => {
            match n {
                0x0 => Instruction::Copy(x, y),
                0x1 => Instruction::Or(x, y),
                0x2 => Instruction::And(x, y),
                0x3 => Instruction::Xor(x, y),
                0x4 => Instruction::Add(x, y),
                0x5 => Instruction::Subtract(x, y),
                0x6 => Instruction::ShiftRight(x),
                0x7 => Instruction::SubtractFrom(x, y),
                0xE => Instruction::ShiftLeft(x),
                _ => Instruction::Unknown(opcode),
            }
        },
        0x9 => {
            if n == 0 {
                Instruction::SkipIfDifferent(x, y)
            } else {
                Instruction::Unknown(opcode)
            }
        },
        0xA => Instruction::LoadIndex(nnn),
        0xB => Instruction::JumpOffset(nnn),
        0xC => Instruction::Random(x, nn),
        0xD => Instruction::Draw(x, y, n),
        0xE => {
            match nn {
                0x9E => Instruction::SkipIfKey(x),
                0xA1 => Instruction::SkipIfNoKey(x),
                _ => Instruction::Unknown(opcode),
            }
        },
        0xF => {
            match nn {
                0x07 => Instruction::ReadDelay(x),
                0x0A => Instruction::WaitKey(x),
                0x15 => Instruction::SetDelay(x),
                0x18 => Instruction::SetSound(x),
                0x1E => Instruction::AddIndex(x),
                0x33 => Instruction::StoreDigits(x),
                0x55 => Instruction::StoreRegisters(x),
                0x65 => Instruction::LoadRegisters(x),
                _ => Instruction::Unknown(opcode),
            }
        },
        _ => Instruction::Unknown(opcode),
    }
}

} // verus!
