//! Decoding of 16-bit instruction words into the supported instruction set.
use vstd::prelude::*;

verus! {

/// One decoded instruction. Register operands are indices `0..16`, addresses
/// are 12-bit, immediates are bytes, and a sprite height is a nibble.
#[derive(Clone, Copy, Debug, PartialEq, Eq, Structural)]
pub enum Instruction {
    /// `00E0`: clear the framebuffer.
    ClearScreen,
    /// `00EE`: return from a subroutine.
    Return,
    /// `1nnn`: jump to `addr`.
    Jump { addr: u16 },
    /// `2nnn`: call the subroutine at `addr`.
    Call { addr: u16 },
    /// `3xnn`: skip the next instruction if `V[x] == nn`.
    SkipEq { x: u8, nn: u8 },
    /// `4xnn`: skip the next instruction if `V[x] != nn`.
    SkipNe { x: u8, nn: u8 },
    /// `5xy0`: skip the next instruction if `V[x] == V[y]`.
    SkipEqReg { x: u8, y: u8 },
    /// `9xy0`: skip the next instruction if `V[x] != V[y]`.
    SkipNeReg { x: u8, y: u8 },
    /// `6xnn`: `V[x] = nn`.
    SetImm { x: u8, nn: u8 },
    /// `7xnn`: `V[x] += nn`, wrapping, flags untouched.
    AddImm { x: u8, nn: u8 },
    /// `8xy0`: `V[x] = V[y]`.
    Copy { x: u8, y: u8 },
    /// `8xy1`: `V[x] |= V[y]`.
    Or { x: u8, y: u8 },
    /// `8xy2`: `V[x] &= V[y]`.
    And { x: u8, y: u8 },
    /// `8xy3`: `V[x] ^= V[y]`.
    Xor { x: u8, y: u8 },
    /// `8xy4`: `V[x] += V[y]`, `VF` = carry.
    AddReg { x: u8, y: u8 },
    /// `8xy5`: `V[x] -= V[y]`, `VF` = not borrow.
    SubReg { x: u8, y: u8 },
    /// `8xy6`: `V[x] >>= 1`, `VF` = the bit shifted out; `y` is not read.
    ShiftRight { x: u8, y: u8 },
    /// `8xy7`: `V[x] = V[y] - V[x]`, `VF` = not borrow.
    SubRev { x: u8, y: u8 },
    /// `8xyE`: `V[x] <<= 1`, `VF` = the bit shifted out; `y` is not read.
    ShiftLeft { x: u8, y: u8 },
    /// `Annn`: `I = addr`.
    SetIndex { addr: u16 },
    /// `Bnnn`: jump to `addr + V[0]`.
    JumpOffset { addr: u16 },
    /// `Cxnn`: `V[x]` = random byte `& nn`.
    Random { x: u8, nn: u8 },
    /// `Dxyn`: draw an `n`-row sprite from `memory[I..]` at
    /// `(V[x] mod 64, V[y] mod 32)`; pixels past the right or bottom edge
    /// wrap to the opposite edge.
    Draw { x: u8, y: u8, n: u8 },
    /// `Ex9E`: skip the next instruction if key `V[x] mod 16` is pressed.
    SkipKeyDown { x: u8 },
    /// `ExA1`: skip the next instruction if key `V[x] mod 16` is not pressed.
    SkipKeyUp { x: u8 },
    /// `Fx07`: `V[x] = delay timer`.
    GetDelay { x: u8 },
    /// `Fx0A`: store the lowest pressed key in `V[x]`; with no key pressed
    /// the program counter stays put, so the instruction runs again.
    WaitKey { x: u8 },
    /// `Fx15`: `delay timer = V[x]`.
    SetDelay { x: u8 },
    /// `Fx18`: `sound timer = V[x]`.
    SetSound { x: u8 },
    /// `Fx1E`: `I = (I + V[x]) mod 4096`.
    AddIndex { x: u8 },
    /// `Fx29`: `I` = address of the font glyph for `V[x]`.
    FontAddr { x: u8 },
    /// `Fx33`: store the decimal digits of `V[x]` at `memory[I..I+3]`.
    StoreBcd { x: u8 },
    /// `Fx55`: store `V[0..=x]` at `memory[I..=I+x]`.
    StoreRegs { x: u8 },
    /// `Fx65`: load `V[0..=x]` from `memory[I..=I+x]`.
    LoadRegs { x: u8 },
}

/// The top nibble of an instruction word.
pub open spec fn family(w: u16) -> int {
    w as int / 4096
}

/// Bits 8..12: the first register operand.
pub open spec fn field_x(w: u16) -> u8 {
    ((w as int / 256) % 16) as u8
}

/// Bits 4..8: the second register operand.
pub open spec fn field_y(w: u16) -> u8 {
    ((w as int / 16) % 16) as u8
}

/// Bits 0..4.
pub open spec fn field_n(w: u16) -> u8 {
    (w as int % 16) as u8
}

/// Bits 0..8.
pub open spec fn field_nn(w: u16) -> u8 {
    (w as int % 256) as u8
}

/// Bits 0..12.
pub open spec fn field_nnn(w: u16) -> u16 {
    (w as int % 4096) as u16
}

impl Instruction {
    /// Operands are within the ranges an instruction word can encode.
    pub open spec fn wf(self) -> bool {
        match self {
            Instruction::Return => true,
            Instruction::ClearScreen => true,
            Instruction::JumpOffset { addr } => addr < 4096,
            Instruction::SkipEqReg { x, y } => x < 16 && y < 16,
            Instruction::SkipNeReg { x, y } => x < 16 && y < 16,
            Instruction::Or { x, y } => x < 16 && y < 16,
            Instruction::Xor { x, y } => x < 16 && y < 16,
            Instruction::ShiftRight { x, y } => x < 16 && y < 16,
            Instruction::SubRev { x, y } => x < 16 && y < 16,
            Instruction::ShiftLeft { x, y } => x < 16 && y < 16,
            Instruction::SkipKeyDown { x } => x < 16,
            Instruction::WaitKey { x } => x < 16,
            Instruction::AddIndex { x } => x < 16,
            Instruction::StoreRegs { x } => x < 16,
            Instruction::Jump { addr } => addr < 4096,
            Instruction::Call { addr } => addr < 4096,
            Instruction::SetIndex { addr } => addr < 4096,
            Instruction::SkipEq { x, nn } => x < 16,
            Instruction::SkipNe { x, nn } => x < 16,
            Instruction::SetImm { x, nn } => x < 16,
            Instruction::AddImm { x, nn } => x < 16,
            Instruction::Random { x, nn } => x < 16,
            Instruction::Copy { x, y } => x < 16 && y < 16,
            Instruction::And { x, y } => x < 16 && y < 16,
            Instruction::AddReg { x, y } => x < 16 && y < 16,
            Instruction::SubReg { x, y } => x < 16 && y < 16,
            Instruction::Draw { x, y, n } => x < 16 && y < 16 && n < 16,
            Instruction::SkipKeyUp { x } => x < 16,
            Instruction::GetDelay { x } => x < 16,
            Instruction::SetDelay { x } => x < 16,
            Instruction::SetSound { x } => x < 16,
            Instruction::FontAddr { x } => x < 16,
            Instruction::StoreBcd { x } => x < 16,
            Instruction::LoadRegs { x } => x < 16,
        }
    }
}

/// The instruction a word encodes, or `None` for a word outside the set.
pub open spec fn decode_spec(w: u16) -> Option<Instruction> {
    let x = field_x(w);
    let y = field_y(w);
    let nn = field_nn(w);
    let nnn = field_nnn(w);
    let f = family(w);
    if f == 0 {
        if w == 0x00E0 {
            Some(Instruction::ClearScreen)
        } else if w == 0x00EE {
            Some(Instruction::Return)
        } else {
            None
        }
    } else if f == 1 {
        Some(Instruction::Jump { addr: nnn })
    } else if f == 2 {
        Some(Instruction::Call { addr: nnn })
    } else if f == 3 {
        Some(Instruction::SkipEq { x, nn })
    } else if f == 4 {
        Some(Instruction::SkipNe { x, nn })
    } else if f == 5 {
        if field_n(w) == 0 { Some(Instruction::SkipEqReg { x, y }) } else { None }
    } else if f == 6 {
        Some(Instruction::SetImm { x, nn })
    } else if f == 7 {
        Some(Instruction::AddImm { x, nn })
    } else if f == 8 {
        let n = field_n(w);
        if n == 0 {
            Some(Instruction::Copy { x, y })
        } else if n == 1 {
            Some(Instruction::Or { x, y })
        } else if n == 2 {
            Some(Instruction::And { x, y })
        } else if n == 3 {
            Some(Instruction::Xor { x, y })
        } else if n == 4 {
            Some(Instruction::AddReg { x, y })
        } else if n == 5 {
            Some(Instruction::SubReg { x, y })
        } else if n == 6 {
            Some(Instruction::ShiftRight { x, y })
        } else if n == 7 {
            Some(Instruction::SubRev { x, y })
        } else if n == 0xE {
            Some(Instruction::ShiftLeft { x, y })
        } else {
            None
        }
    } else if f == 9 {
        if field_n(w) == 0 { Some(Instruction::SkipNeReg { x, y }) } else { None }
    } else if f == 0xA {
        Some(Instruction::SetIndex { addr: nnn })
    } else if f == 0xB {
        Some(Instruction::JumpOffset { addr: nnn })
    } else if f == 0xC {
        Some(Instruction::Random { x, nn })
    } else if f == 0xD {
        Some(Instruction::Draw { x, y, n: field_n(w) })
    } else if f == 0xE {
        if nn == 0x9E {
            Some(Instruction::SkipKeyDown { x })
        } else if nn == 0xA1 {
            Some(Instruction::SkipKeyUp { x })
        } else {
            None
        }
    } else if f == 0xF {
        if nn == 0x07 {
            Some(Instruction::GetDelay { x })
        } else if nn == 0x0A {
            Some(Instruction::WaitKey { x })
        } else if nn == 0x15 {
            Some(Instruction::SetDelay { x })
        } else if nn == 0x18 {
            Some(Instruction::SetSound { x })
        } else if nn == 0x1E {
            Some(Instruction::AddIndex { x })
        } else if nn == 0x29 {
            Some(Instruction::FontAddr { x })
        } else if nn == 0x33 {
            Some(Instruction::StoreBcd { x })
        } else if nn == 0x55 {
            Some(Instruction::StoreRegs { x })
        } else if nn == 0x65 {
            Some(Instruction::LoadRegs { x })
        } else {
            None
        }
    } else {
        None
    }
}

proof fn lemma_fields(w: u16)
    ensures
        w >> 12u16 == family(w),
        (w >> 8u16) & 0xFu16 == field_x(w),
        (w >> 4u16) & 0xFu16 == field_y(w),
        w & 0xFu16 == field_n(w),
        w & 0xFFu16 == field_nn(w),
        w & 0xFFFu16 == field_nnn(w),
        family(w) < 16,
{
    assert(w >> 12u16 == w / 4096) by (bit_vector);
    assert((w >> 8u16) & 0xFu16 == (w / 256) % 16) by (bit_vector);
    assert((w >> 4u16) & 0xFu16 == (w / 16) % 16) by (bit_vector);
    assert(w & 0xFu16 == w % 16) by (bit_vector);
    assert(w & 0xFFu16 == w % 256) by (bit_vector);
    assert(w & 0xFFFu16 == w % 4096) by (bit_vector);
}

/// Decodes one instruction word.
pub fn decode(w: u16) -> (r: Option<Instruction>)
    ensures
        r == decode_spec(w),
        r matches Some(ins) ==> ins.wf(),
{
    proof {
        lemma_fields(w);
    }
    let f = w >> 12;
    let x = ((w >> 8) & 0xF) as u8;
    let y = ((w >> 4) & 0xF) as u8;
    let n = (w & 0xF) as u8;
    let nn = (w & 0xFF) as u8;
    let nnn = w & 0xFFF;
    match f {
        0x0 => match w {
            0x00E0 => Some(Instruction::ClearScreen),
            0x00EE => Some(Instruction::Return),
            _ => None,
        },
        0x1 => Some(Instruction::Jump { addr: nnn }),
        0x2 => Some(Instruction::Call { addr: nnn }),
        0x3 => Some(Instruction::SkipEq { x, nn }),
        0x4 => Some(Instruction::SkipNe { x, nn }),
        0x5 => if n == 0 { Some(Instruction::SkipEqReg { x, y }) } else { None },
        0x6 => Some(Instruction::SetImm { x, nn }),
        0x7 => Some(Instruction::AddImm { x, nn }),
        0x8 => match n {
            0x0 => Some(Instruction::Copy { x, y }),
            0x1 => Some(Instruction::Or { x, y }),
            0x2 => Some(Instruction::And { x, y }),
            0x3 => Some(Instruction::Xor { x, y }),
            0x4 => Some(Instruction::AddReg { x, y }),
            0x5 => Some(Instruction::SubReg { x, y }),
            0x6 => Some(Instruction::ShiftRight { x, y }),
            0x7 => Some(Instruction::SubRev { x, y }),
            0xE => Some(Instruction::ShiftLeft { x, y }),
            _ => None,
        },
        0x9 => if n == 0 { Some(Instruction::SkipNeReg { x, y }) } else { None },
        0xA => Some(Instruction::SetIndex { addr: nnn }),
        0xB => Some(Instruction::JumpOffset { addr: nnn }),
        0xC => Some(Instruction::Random { x, nn }),
        0xD => Some(Instruction::Draw { x, y, n }),
        0xE => match nn {
            0x9E => Some(Instruction::SkipKeyDown { x }),
            0xA1 => Some(Instruction::SkipKeyUp { x }),
            _ => None,
        },
        0xF => match nn {
            0x07 => Some(Instruction::GetDelay { x }),
            0x0A => Some(Instruction::WaitKey { x }),
            0x15 => Some(Instruction::SetDelay { x }),
            0x18 => Some(Instruction::SetSound { x }),
            0x1E => Some(Instruction::AddIndex { x }),
            0x29 => Some(Instruction::FontAddr { x }),
            0x33 => Some(Instruction::StoreBcd { x }),
            0x55 => Some(Instruction::StoreRegs { x }),
            0x65 => Some(Instruction::LoadRegs { x }),
            _ => None,
        },
        _ => None,
    }
}

} // verus!
