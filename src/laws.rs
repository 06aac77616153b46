//! Laws of the instruction set, stated over the cycle's specification.
use vstd::prelude::*;
use crate::instruction::{decode_spec, family, field_n, field_nn, field_nnn, field_x, field_y, Instruction};
use crate::machine::{
    collides, draw_spec, drawn, fetch_spec, lemma_pixel_coords, lemma_target, lit,
    sprite_col, sprite_row, step_spec,
    toggle, ChipError, MachineState,
};

verus! {

/// The fields of a word assembled from four nibbles are those nibbles.
proof fn lemma_word_fields(f: int, x: int, y: int, n: int)
    requires
        0 <= f < 16,
        0 <= x < 16,
        0 <= y < 16,
        0 <= n < 16,
    ensures
        ({
            let w = (f * 4096 + x * 256 + y * 16 + n) as u16;
            &&& family(w) == f
            &&& field_x(w) == x
            &&& field_y(w) == y
            &&& field_n(w) == n
            &&& field_nn(w) == y * 16 + n
            &&& field_nnn(w) == x * 256 + y * 16 + n
        }),
{
    let w = f * 4096 + x * 256 + y * 16 + n;
    assert(0 <= w < 65536);
    assert(w / 4096 == f);
    assert(w / 256 == f * 16 + x);
    assert((w / 256) % 16 == x);
    assert(w / 16 == f * 256 + x * 16 + y);
    assert((w / 16) % 16 == y);
    assert(w % 16 == n);
    assert(w % 256 == y * 16 + n);
    assert(w % 4096 == x * 256 + y * 16 + n);
}

/// `8xy4` with `x` other than `F` stores `(V[x] + V[y]) mod 256` in `V[x]`
/// and sets `VF` to 1 exactly when the unsigned sum exceeds 255, else 0.
pub proof fn lemma_add_sets_carry(s: MachineState, x: u8, y: u8, rnd: u8)
    requires
        s.wf(),
        x < 15,
        y < 16,
        fetch_spec(s) == Ok::<u16, ChipError>((0x8004 + x * 256 + y * 16) as u16),
    ensures
        ({
            let a = s.v[x as int];
            let b = s.v[y as int];
            &&& step_spec(s, rnd) is Ok
            &&& step_spec(s, rnd)->Ok_0.v[x as int] == (a + b) % 256
            &&& step_spec(s, rnd)->Ok_0.v[15] == if a + b > 255 { 1u8 } else { 0u8 }
            &&& step_spec(s, rnd)->Ok_0.pc == s.pc + 2
        }),
{
    lemma_word_fields(8, x as int, y as int, 4);
    assert(decode_spec((0x8004 + x * 256 + y * 16) as u16) == Some(Instruction::AddReg { x, y }));
}

/// `8xy5` with `x` other than `F` stores `(V[x] - V[y]) mod 256` in `V[x]`
/// and sets `VF` to 0 exactly when `V[x] < V[y]`, else 1.
pub proof fn lemma_sub_sets_borrow(s: MachineState, x: u8, y: u8, rnd: u8)
    requires
        s.wf(),
        x < 15,
        y < 16,
        fetch_spec(s) == Ok::<u16, ChipError>((0x8005 + x * 256 + y * 16) as u16),
    ensures
        ({
            let a = s.v[x as int];
            let b = s.v[y as int];
            &&& step_spec(s, rnd) is Ok
            &&& step_spec(s, rnd)->Ok_0.v[x as int] == (a - b) % 256
            &&& step_spec(s, rnd)->Ok_0.v[15] == if a < b { 0u8 } else { 1u8 }
            &&& step_spec(s, rnd)->Ok_0.pc == s.pc + 2
        }),
{
    lemma_word_fields(8, x as int, y as int, 5);
    assert(decode_spec((0x8005 + x * 256 + y * 16) as u16) == Some(Instruction::SubReg { x, y }));
}

/// A call to a subroutine whose first instruction is a return resumes right
/// after the call site, with the stack depth it had before the call.
pub proof fn lemma_call_then_return(s: MachineState, nnn: u16, rnd1: u8, rnd2: u8)
    requires
        s.wf(),
        nnn < 4095,
        s.sp < 16,
        fetch_spec(s) == Ok::<u16, ChipError>((0x2000 + nnn) as u16),
        s.memory[nnn as int] == 0x00,
        s.memory[nnn + 1] == 0xEE,
    ensures
        step_spec(s, rnd1) is Ok,
        step_spec(step_spec(s, rnd1)->Ok_0, rnd2) is Ok,
        step_spec(step_spec(s, rnd1)->Ok_0, rnd2)->Ok_0.pc == s.pc + 2,
        step_spec(step_spec(s, rnd1)->Ok_0, rnd2)->Ok_0.sp == s.sp,
{
    lemma_word_fields(2, nnn as int / 256, (nnn as int / 16) % 16, nnn as int % 16);
    assert(decode_spec((0x2000 + nnn) as u16) == Some(Instruction::Call { addr: nnn }));
    let t = step_spec(s, rnd1)->Ok_0;
    assert(t.pc == nnn);
    assert(fetch_spec(t) == Ok::<u16, ChipError>(0x00EEu16));
    assert(decode_spec(0x00EEu16) == Some(Instruction::Return)) by {
        lemma_word_fields(0, 0, 14, 14);
    }
}

/// `3xnn` skips the next instruction exactly when `V[x] == nn`.
pub proof fn lemma_skip_if_equal(s: MachineState, x: u8, nn: u8, rnd: u8)
    requires
        s.wf(),
        x < 16,
        fetch_spec(s) == Ok::<u16, ChipError>((0x3000 + x * 256 + nn) as u16),
    ensures
        step_spec(s, rnd) is Ok,
        step_spec(s, rnd)->Ok_0.pc == s.pc + if s.v[x as int] == nn { 4int } else { 2int },
{
    lemma_word_fields(3, x as int, nn as int / 16, nn as int % 16);
    assert(decode_spec((0x3000 + x * 256 + nn) as u16) == Some(Instruction::SkipEq { x, nn }));
}

/// `4xnn` skips the next instruction exactly when `V[x] != nn`.
pub proof fn lemma_skip_if_not_equal(s: MachineState, x: u8, nn: u8, rnd: u8)
    requires
        s.wf(),
        x < 16,
        fetch_spec(s) == Ok::<u16, ChipError>((0x4000 + x * 256 + nn) as u16),
    ensures
        step_spec(s, rnd) is Ok,
        step_spec(s, rnd)->Ok_0.pc == s.pc + if s.v[x as int] != nn { 4int } else { 2int },
{
    lemma_word_fields(4, x as int, nn as int / 16, nn as int % 16);
    assert(decode_spec((0x4000 + x * 256 + nn) as u16) == Some(Instruction::SkipNe { x, nn }));
}

/// A call with all sixteen stack slots in use fails with a stack overflow.
pub proof fn lemma_call_on_full_stack(s: MachineState, nnn: u16, rnd: u8)
    requires
        s.wf(),
        nnn < 4096,
        s.sp == 16,
        fetch_spec(s) == Ok::<u16, ChipError>((0x2000 + nnn) as u16),
    ensures
        step_spec(s, rnd) == Err::<MachineState, ChipError>(ChipError::StackOverflow),
{
    lemma_word_fields(2, nnn as int / 256, (nnn as int / 16) % 16, nnn as int % 16);
    assert(decode_spec((0x2000 + nnn) as u16) == Some(Instruction::Call { addr: nnn }));
}

/// A return with an empty stack fails with a stack underflow.
pub proof fn lemma_return_on_empty_stack(s: MachineState, rnd: u8)
    requires
        s.wf(),
        s.sp == 0,
        fetch_spec(s) == Ok::<u16, ChipError>(0x00EEu16),
    ensures
        step_spec(s, rnd) == Err::<MachineState, ChipError>(ChipError::StackUnderflow),
{
    assert(decode_spec(0x00EEu16) == Some(Instruction::Return)) by {
        lemma_word_fields(0, 0, 14, 14);
    }
}

proof fn lemma_one_bit(c: u8, d: u8)
    by (bit_vector)
    requires
        c < 8,
        d < 8,
    ensures
        ((0x80u8 >> c) & (0x80u8 >> d) != 0) <==> c == d,
{
}

/// Framebuffer index of pixel `(x0 + c, y0)`, wrapped horizontally.
pub open spec fn pixel_at(x0: int, y0: int, c: int) -> int {
    y0 * 64 + (x0 + c) % 64
}

/// A one-row sprite with the single bit `c` set lights exactly one pixel.
proof fn lemma_one_pixel_sprite(s: MachineState, x0: int, y0: int, c: u8)
    requires
        s.wf(),
        0 <= x0 < 64,
        0 <= y0 < 32,
        c < 8,
        s.memory[s.i as int] == 0x80u8 >> c,
    ensures
        0 <= pixel_at(x0, y0, c as int) < 2048,
        forall|k: int|
            0 <= k < 2048 ==> (#[trigger] lit(s.memory, s.i as int, 1, x0, y0, k) <==> k == pixel_at(
                x0,
                y0,
                c as int,
            )),
{
    let p = pixel_at(x0, y0, c as int);
    lemma_target(x0, y0, 0, c as int);
    assert(y0 % 32 == y0);
    lemma_one_bit(c, c);
    assert forall|k: int| 0 <= k < 2048 implies (#[trigger] lit(s.memory, s.i as int, 1, x0, y0, k) <==> k == p) by {
        lemma_pixel_coords(k, x0, y0);
        let col = sprite_col(x0, k);
        if lit(s.memory, s.i as int, 1, x0, y0, k) {
            assert(sprite_row(y0, k) == 0);
            lemma_one_bit(c, col as u8);
            assert(col == c);
        }
    }
}

/// The framebuffer after drawing a one-pixel sprite is the old one with
/// that pixel flipped, and a collision is reported exactly when it was on.
proof fn lemma_one_pixel_draw(s: MachineState, x0: int, y0: int, c: u8)
    requires
        s.wf(),
        0 <= x0 < 64,
        0 <= y0 < 32,
        c < 8,
        s.memory[s.i as int] == 0x80u8 >> c,
    ensures
        drawn(s, 1, x0, y0) == s.gfx.update(pixel_at(x0, y0, c as int), toggle(s.gfx[pixel_at(x0, y0, c as int)])),
        collides(s, 1, x0, y0) <==> s.gfx[pixel_at(x0, y0, c as int)] == 1,
{
    lemma_one_pixel_sprite(s, x0, y0, c);
    let p = pixel_at(x0, y0, c as int);
    assert(drawn(s, 1, x0, y0) =~= s.gfx.update(p, toggle(s.gfx[p])));
    if s.gfx[p] == 1 {
        assert(lit(s.memory, s.i as int, 1, x0, y0, p));
    }
}

/// Drawing the same one-pixel sprite twice at the same place (the `Dxy1`
/// instruction twice in a row, `x` and `y` other than `F`) onto a pixel that
/// is off lights it, then turns it off again with `VF = 1`, leaving the
/// framebuffer as it was.
pub proof fn lemma_draw_twice_restores(s: MachineState, x: u8, y: u8, c: u8, rnd1: u8, rnd2: u8)
    requires
        s.wf(),
        x < 15,
        y < 15,
        c < 8,
        fetch_spec(s) == Ok::<u16, ChipError>((0xD001 + x * 256 + y * 16) as u16),
        s.pc + 3 < 4096,
        s.memory[s.pc + 2] == s.memory[s.pc as int],
        s.memory[s.pc + 3] == s.memory[s.pc + 1],
        s.memory[s.i as int] == 0x80u8 >> c,
        s.gfx[pixel_at((s.v[x as int] % 64) as int, (s.v[y as int] % 32) as int, c as int)] == 0,
    ensures
        ({
            let p = pixel_at((s.v[x as int] % 64) as int, (s.v[y as int] % 32) as int, c as int);
            let t = step_spec(s, rnd1)->Ok_0;
            let u = step_spec(t, rnd2)->Ok_0;
            &&& step_spec(s, rnd1) is Ok
            &&& t.gfx[p] == 1
            &&& t.v[15] == 0
            &&& step_spec(t, rnd2) is Ok
            &&& u.gfx[p] == 0
            &&& u.v[15] == 1
            &&& u.gfx == s.gfx
        }),
{
    let x0 = (s.v[x as int] % 64) as int;
    let y0 = (s.v[y as int] % 32) as int;
    let p = pixel_at(x0, y0, c as int);
    let w = (0xD001 + x * 256 + y * 16) as u16;
    lemma_word_fields(0xD, x as int, y as int, 1);
    assert(decode_spec(w) == Some(Instruction::Draw { x, y, n: 1 }));
    lemma_one_pixel_draw(s, x0, y0, c);
    let t = step_spec(s, rnd1)->Ok_0;
    assert(t.gfx == s.gfx.update(p, 1u8));
    assert(t.v[x as int] == s.v[x as int] && t.v[y as int] == s.v[y as int]);
    assert(fetch_spec(t) == Ok::<u16, ChipError>(w));
    assert(t.wf());
    lemma_one_pixel_draw(t, x0, y0, c);
    let u = step_spec(t, rnd2)->Ok_0;
    assert(u.gfx =~= s.gfx);
}

/// Drawing two sprites that light no pixel in common, onto pixels that are
/// off, reports no collision for either draw.
pub proof fn lemma_disjoint_draws_never_collide(
    s: MachineState,
    n1: int,
    x1: int,
    y1: int,
    i2: u16,
    n2: int,
    x2: int,
    y2: int,
)
    requires
        s.wf(),
        0 <= n1 < 16,
        0 <= n2 < 16,
        0 <= x1 < 64,
        0 <= x2 < 64,
        0 <= y1 < 32,
        0 <= y2 < 32,
        s.i + n1 <= 4096,
        i2 + n2 <= 4096,
        forall|k: int|
            0 <= k < 2048 ==> !(#[trigger] lit(s.memory, s.i as int, n1, x1, y1, k) && #[trigger] lit(
                s.memory,
                i2 as int,
                n2,
                x2,
                y2,
                k,
            )),
        forall|k: int|
            0 <= k < 2048 && #[trigger] lit(s.memory, s.i as int, n1, x1, y1, k) ==> s.gfx[k] == 0,
        forall|k: int|
            0 <= k < 2048 && #[trigger] lit(s.memory, i2 as int, n2, x2, y2, k) ==> s.gfx[k] == 0,
    ensures
        ({
            let t = draw_spec(s, n1, x1, y1);
            let u = draw_spec(MachineState { i: i2, ..t }, n2, x2, y2);
            &&& t.v[15] == 0
            &&& u.v[15] == 0
        }),
{
    let t = draw_spec(s, n1, x1, y1);
    let t2 = MachineState { i: i2, ..t };
    assert(!collides(s, n1, x1, y1));
    assert forall|k: int| 0 <= k < 2048 && #[trigger] lit(t2.memory, i2 as int, n2, x2, y2, k) implies t2.gfx[k]
        == 0 by {
        assert(!lit(s.memory, s.i as int, n1, x1, y1, k));
    }
    assert(!collides(t2, n2, x2, y2));
}

} // verus!
