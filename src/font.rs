//! The built-in hexadecimal font: sixteen 4x5 glyphs, five bytes each.
use vstd::prelude::*;

verus! {

/// Number of bytes the font occupies at the start of memory.
pub const FONT_LEN: usize = 80;

/// Glyphs for the digits 0..F; glyph `d` starts at address `5 * d`.
pub const FONTSET: [u8; 80] = [
    0xF0, 0x90, 0x90, 0x90, 0xF0, // 0
    0x20, 0x60, 0x20, 0x20, 0x70, // 1
    0xF0, 0x10, 0xF0, 0x80, 0xF0, // 2
    0xF0, 0x10, 0xF0, 0x10, 0xF0, // 3
    0x90, 0x90, 0xF0, 0x10, 0x10, // 4
    0xF0, 0x80, 0xF0, 0x10, 0xF0, // 5
    0xF0, 0x80, 0xF0, 0x90, 0xF0, // 6
    0xF0, 0x10, 0x20, 0x40, 0x40, // 7
    0xF0, 0x90, 0xF0, 0x90, 0xF0, // 8
    0xF0, 0x90, 0xF0, 0x10, 0xF0, // 9
    0xF0, 0x90, 0xF0, 0x90, 0x90, // A
    0xE0, 0x90, 0xE0, 0x90, 0xE0, // B
    0xF0, 0x80, 0x80, 0x80, 0xF0, // C
    0xE0, 0x90, 0x90, 0x90, 0xE0, // D
    0xF0, 0x80, 0xF0, 0x80, 0xF0, // E
    0xF0, 0x80, 0xF0, 0x80, 0x80, // F
];

/// Memory image of a freshly initialised machine: the font, then zeros.
pub open spec fn initial_memory() -> Seq<u8> {
    Seq::new(4096, |k: int| if k < 80 { FONTSET@[k] } else { 0u8 })
}

/// Builds the initial memory image.
pub fn font_memory() -> (mem: [u8; 4096])
    ensures
        mem@ == initial_memory(),
{
    let mut mem: [u8; 4096] = [0u8; 4096];
    let font: [u8; 80] = FONTSET;
    let mut f: usize = 0;
    while f < FONT_LEN
        invariant
            f <= 80,
            font@ == FONTSET@,
            forall|k: int| 0 <= k < 4096 ==> mem@[k] == (if k < f { FONTSET@[k] } else { 0u8 }),
        decreases 80 - f,
    {
        mem[f] = font[f];
        f = f + 1;
    }
    assert(mem@ =~= initial_memory());
    mem
}

} // verus!
