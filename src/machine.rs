//! The machine: architectural state, its abstract model, and the
//! fetch-decode-execute cycle.
use vstd::prelude::*;
use crate::font::{font_memory, initial_memory};
use crate::instruction::{decode, decode_spec, Instruction};

verus! {

/// Size of addressable memory in bytes.
pub const MEMORY_SIZE: usize = 4096;
/// Address at which programs are loaded and execution starts.
pub const PROGRAM_START: u16 = 0x200;
/// Framebuffer width in pixels.
pub const SCREEN_WIDTH: u16 = 64;
/// Framebuffer height in pixels.
pub const SCREEN_HEIGHT: u16 = 32;
/// Capacity of the call stack.
pub const STACK_DEPTH: u16 = 16;

/// Why a load or a cycle could not be carried out.
#[derive(Clone, Copy, Debug, PartialEq, Eq, Structural)]
pub enum ChipError {
    /// The program does not fit between its origin and the end of memory.
    ProgramTooLarge,
    /// A fetch or a memory operand would lie past the end of memory.
    AddressOutOfBounds,
    /// A call with all sixteen stack slots in use.
    StackOverflow,
    /// A return with an empty stack.
    StackUnderflow,
    /// A word outside the supported instruction set.
    UnknownOpcode(u16),
}

/// Abstract view of a machine.
pub struct MachineState {
    pub memory: Seq<u8>,
    pub v: Seq<u8>,
    pub i: u16,
    pub pc: u16,
    pub stack: Seq<u16>,
    pub sp: u16,
    pub delay_timer: u8,
    pub sound_timer: u8,
    pub gfx: Seq<u8>,
    pub draw_flag: bool,
    pub key: Seq<u8>,
}

impl MachineState {
    /// The invariant every reachable state satisfies.
    pub open spec fn wf(self) -> bool {
        &&& self.memory.len() == 4096
        &&& self.v.len() == 16
        &&& self.stack.len() == 16
        &&& self.gfx.len() == 2048
        &&& self.key.len() == 16
        &&& self.sp <= 16
        &&& self.i < 4096
        &&& forall|k: int| 0 <= k < 16 ==> #[trigger] self.stack[k] < 4095
        &&& forall|k: int| 0 <= k < 2048 ==> #[trigger] self.gfx[k] <= 1
    }
}

/// The state right after initialisation: font loaded, everything else
/// zero, execution starting at the program area.
pub open spec fn initial_state() -> MachineState {
    MachineState {
        memory: initial_memory(),
        v: Seq::new(16, |k: int| 0u8),
        i: 0,
        pc: 0x200,
        stack: Seq::new(16, |k: int| 0u16),
        sp: 0,
        delay_timer: 0,
        sound_timer: 0,
        gfx: Seq::new(2048, |k: int| 0u8),
        draw_flag: false,
        key: Seq::new(16, |k: int| 0u8),
    }
}

/// Whether bit `c` (0 = leftmost) of a sprite row is set.
pub open spec fn sprite_bit(row: u8, c: int) -> bool {
    row & (0x80u8 >> (c as u8)) != 0
}

/// Sprite row that covers framebuffer index `k`, for a sprite whose
/// top-left corner is `(x0, y0)`; coordinates wrap at the screen edges.
pub open spec fn sprite_row(y0: int, k: int) -> int {
    (k / 64 - y0) % 32
}

/// Sprite column that covers framebuffer index `k`.
pub open spec fn sprite_col(x0: int, k: int) -> int {
    (k % 64 - x0) % 64
}

/// Whether the `n`-row sprite stored at `memory[i..]` and drawn at
/// `(x0, y0)` lights framebuffer index `k`.
pub open spec fn lit(mem: Seq<u8>, i: int, n: int, x0: int, y0: int, k: int) -> bool {
    let r = sprite_row(y0, k);
    let c = sprite_col(x0, k);
    r < n && c < 8 && sprite_bit(mem[i + r], c)
}

/// A pixel flipped by a sprite.
pub open spec fn toggle(p: u8) -> u8 {
    if p == 0 { 1 } else { 0 }
}

/// Whether drawing the sprite turns off a pixel that was on.
pub open spec fn collides(s: MachineState, n: int, x0: int, y0: int) -> bool {
    exists|k: int| 0 <= k < 2048 && #[trigger] lit(s.memory, s.i as int, n, x0, y0, k) && s.gfx[k] == 1
}

/// The framebuffer after XOR-ing the sprite onto it.
pub open spec fn drawn(s: MachineState, n: int, x0: int, y0: int) -> Seq<u8> {
    Seq::new(
        2048,
        |k: int| if lit(s.memory, s.i as int, n, x0, y0, k) { toggle(s.gfx[k]) } else { s.gfx[k] },
    )
}

/// Effect of drawing an `n`-row sprite at `(x0, y0)`: pixels XOR-ed, `VF`
/// reports a collision, the redraw flag is raised.
pub open spec fn draw_spec(s: MachineState, n: int, x0: int, y0: int) -> MachineState {
    MachineState {
        v: s.v.update(15, if collides(s, n, x0, y0) { 1u8 } else { 0u8 }),
        gfx: drawn(s, n, x0, y0),
        draw_flag: true,
        ..s
    }
}

/// The state after moving the program counter forward by `k` bytes.
pub open spec fn advance(s: MachineState, k: int) -> MachineState {
    MachineState { pc: (s.pc + k) as u16, ..s }
}

/// The state with register `x` set to `val`.
pub open spec fn set_reg(s: MachineState, x: u8, val: u8) -> MachineState {
    MachineState { v: s.v.update(x as int, val), ..s }
}

/// Memory with the three decimal digits of `val` stored at `i..i+3`.
pub open spec fn bcd_memory(mem: Seq<u8>, i: int, val: u8) -> Seq<u8> {
    mem.update(i, val / 100).update(i + 1, (val / 10) % 10).update(i + 2, val % 10)
}

/// Registers `V[0..=x]` loaded from `memory[i..=i+x]`, the rest kept.
pub open spec fn loaded_regs(s: MachineState, x: u8) -> Seq<u8> {
    Seq::new(16, |k: int| if k <= x { s.memory[s.i + k] } else { s.v[k] })
}

/// Memory with `V[0..=x]` stored at `i..=i+x`.
pub open spec fn stored_regs(s: MachineState, x: u8) -> Seq<u8> {
    Seq::new(4096, |k: int| if s.i <= k <= s.i + x { s.v[k - s.i] } else { s.memory[k] })
}

/// The lowest pressed key at index `j` or above, or 16 if there is none.
pub open spec fn first_pressed_from(key: Seq<u8>, j: int) -> int
    decreases 16 - j,
{
    if j >= 16 {
        16
    } else if key[j] == 1 {
        j
    } else {
        first_pressed_from(key, j + 1)
    }
}

/// The lowest pressed key, or 16 if none is pressed.
pub open spec fn first_pressed(key: Seq<u8>) -> int {
    first_pressed_from(key, 0)
}

/// Effect of executing one instruction located at `s.pc`; `rnd` is the
/// random byte that `Cxnn` consumes.
pub open spec fn exec_spec(s: MachineState, ins: Instruction, rnd: u8) -> Result<MachineState, ChipError> {
    match ins {
        Instruction::ClearScreen => Ok(
            advance(MachineState { gfx: Seq::new(2048, |k: int| 0u8), draw_flag: true, ..s }, 2),
        ),
        Instruction::Return => if s.sp == 0 {
            Err(ChipError::StackUnderflow)
        } else {
            Ok(MachineState { sp: (s.sp - 1) as u16, pc: (s.stack[s.sp - 1] + 2) as u16, ..s })
        },
        Instruction::Jump { addr } => Ok(MachineState { pc: addr, ..s }),
        Instruction::Call { addr } => if s.sp >= 16 {
            Err(ChipError::StackOverflow)
        } else {
            Ok(MachineState { stack: s.stack.update(s.sp as int, s.pc), sp: (s.sp + 1) as u16, pc: addr, ..s })
        },
        Instruction::SkipEq { x, nn } => Ok(advance(s, if s.v[x as int] == nn { 4 } else { 2 })),
        Instruction::SkipNe { x, nn } => Ok(advance(s, if s.v[x as int] != nn { 4 } else { 2 })),
        Instruction::SkipEqReg { x, y } => Ok(advance(s, if s.v[x as int] == s.v[y as int] { 4 } else { 2 })),
        Instruction::SkipNeReg { x, y } => Ok(advance(s, if s.v[x as int] != s.v[y as int] { 4 } else { 2 })),
        Instruction::SetImm { x, nn } => Ok(advance(set_reg(s, x, nn), 2)),
        Instruction::AddImm { x, nn } => Ok(advance(set_reg(s, x, ((s.v[x as int] + nn) % 256) as u8), 2)),
        Instruction::Copy { x, y } => Ok(advance(set_reg(s, x, s.v[y as int]), 2)),
        Instruction::Or { x, y } => Ok(advance(set_reg(s, x, s.v[x as int] | s.v[y as int]), 2)),
        Instruction::And { x, y } => Ok(advance(set_reg(s, x, s.v[x as int] & s.v[y as int]), 2)),
        Instruction::Xor { x, y } => Ok(advance(set_reg(s, x, s.v[x as int] ^ s.v[y as int]), 2)),
        Instruction::AddReg { x, y } => {
            let a = s.v[x as int];
            let b = s.v[y as int];
            let flagged = set_reg(s, 15, if a + b > 255 { 1u8 } else { 0u8 });
            Ok(advance(set_reg(flagged, x, ((a + b) % 256) as u8), 2))
        },
        Instruction::SubReg { x, y } => {
            let a = s.v[x as int];
            let b = s.v[y as int];
            let flagged = set_reg(s, 15, if a < b { 0u8 } else { 1u8 });
            Ok(advance(set_reg(flagged, x, ((a - b) % 256) as u8), 2))
        },
        Instruction::ShiftRight { x, y } => {
            let a = s.v[x as int];
            Ok(advance(set_reg(set_reg(s, 15, a % 2), x, a / 2), 2))
        },
        Instruction::SubRev { x, y } => {
            let a = s.v[x as int];
            let b = s.v[y as int];
            let flagged = set_reg(s, 15, if b < a { 0u8 } else { 1u8 });
            Ok(advance(set_reg(flagged, x, ((b - a) % 256) as u8), 2))
        },
        Instruction::ShiftLeft { x, y } => {
            let a = s.v[x as int];
            Ok(advance(set_reg(set_reg(s, 15, a / 128), x, ((a * 2) % 256) as u8), 2))
        },
        Instruction::SetIndex { addr } => Ok(advance(MachineState { i: addr, ..s }, 2)),
        Instruction::JumpOffset { addr } => Ok(MachineState { pc: (addr + s.v[0]) as u16, ..s }),
        Instruction::Random { x, nn } => Ok(advance(set_reg(s, x, rnd & nn), 2)),
        Instruction::Draw { x, y, n } => if s.i + n > 4096 {
            Err(ChipError::AddressOutOfBounds)
        } else {
            Ok(advance(draw_spec(s, n as int, (s.v[x as int] % 64) as int, (s.v[y as int] % 32) as int), 2))
        },
        Instruction::SkipKeyDown { x } => Ok(advance(s, if s.key[(s.v[x as int] % 16) as int] == 1 { 4 } else { 2 })),
        Instruction::WaitKey { x } => {
            let k = first_pressed(s.key);
            if k < 16 {
                Ok(advance(set_reg(s, x, k as u8), 2))
            } else {
                Ok(s)
            }
        },
        Instruction::AddIndex { x } => Ok(advance(MachineState { i: ((s.i + s.v[x as int]) % 4096) as u16, ..s }, 2)),
        Instruction::SkipKeyUp { x } => Ok(advance(s, if s.key[(s.v[x as int] % 16) as int] != 1 { 4 } else { 2 })),
        Instruction::GetDelay { x } => Ok(advance(set_reg(s, x, s.delay_timer), 2)),
        Instruction::SetDelay { x } => Ok(advance(MachineState { delay_timer: s.v[x as int], ..s }, 2)),
        Instruction::SetSound { x } => Ok(advance(MachineState { sound_timer: s.v[x as int], ..s }, 2)),
        Instruction::FontAddr { x } => Ok(advance(MachineState { i: (s.v[x as int] * 5) as u16, ..s }, 2)),
        Instruction::StoreBcd { x } => if s.i + 3 > 4096 {
            Err(ChipError::AddressOutOfBounds)
        } else {
            Ok(advance(MachineState { memory: bcd_memory(s.memory, s.i as int, s.v[x as int]), ..s }, 2))
        },
        Instruction::StoreRegs { x } => if s.i + x + 1 > 4096 {
            Err(ChipError::AddressOutOfBounds)
        } else {
            Ok(advance(MachineState { memory: stored_regs(s, x), ..s }, 2))
        },
        Instruction::LoadRegs { x } => if s.i + x + 1 > 4096 {
            Err(ChipError::AddressOutOfBounds)
        } else {
            Ok(advance(MachineState { v: loaded_regs(s, x), ..s }, 2))
        },
    }
}

/// The big-endian instruction word at the program counter.
pub open spec fn fetch_spec(s: MachineState) -> Result<u16, ChipError> {
    if s.pc + 1 < 4096 {
        Ok((s.memory[s.pc as int] * 256 + s.memory[s.pc + 1]) as u16)
    } else {
        Err(ChipError::AddressOutOfBounds)
    }
}

/// Both timers count down by one, stopping at zero.
pub open spec fn tick(s: MachineState) -> MachineState {
    MachineState {
        delay_timer: if s.delay_timer > 0 { (s.delay_timer - 1) as u8 } else { 0u8 },
        sound_timer: if s.sound_timer > 0 { (s.sound_timer - 1) as u8 } else { 0u8 },
        ..s
    }
}

/// One fetch-decode-execute-timer cycle.
pub open spec fn step_spec(s: MachineState, rnd: u8) -> Result<MachineState, ChipError> {
    match fetch_spec(s) {
        Err(e) => Err(e),
        Ok(w) => match decode_spec(w) {
            None => Err(ChipError::UnknownOpcode(w)),
            Some(ins) => match exec_spec(s, ins, rnd) {
                Err(e) => Err(e),
                Ok(t) => Ok(tick(t)),
            },
        },
    }
}

/// Memory with `prog` copied to `origin..origin + prog.len()`.
pub open spec fn loaded(mem: Seq<u8>, prog: Seq<u8>, origin: int) -> Seq<u8> {
    Seq::new(
        mem.len(),
        |k: int| if origin <= k < origin + prog.len() { prog[k - origin] } else { mem[k] },
    )
}

/// The outcome of an operation that returned `r` and left the machine in `s`.
pub open spec fn outcome(r: Result<(), ChipError>, s: MachineState) -> Result<MachineState, ChipError> {
    match r {
        Ok(_) => Ok(s),
        Err(e) => Err(e),
    }
}

/// The interpreter state. The key-state array is written by the input
/// collaborator between cycles; the rest is reached through methods.
pub struct Chip8 {
    memory: [u8; 4096],
    v: [u8; 16],
    i: u16,
    pc: u16,
    gfx: [u8; 2048],
    draw_flag: bool,
    delay_timer: u8,
    sound_timer: u8,
    stack: [u16; 16],
    sp: u16,
    /// Key states `0x0..=0xF`: 1 = pressed, 0 = released.
    pub key: [u8; 16],
}

impl View for Chip8 {
    type V = MachineState;

    closed spec fn view(&self) -> MachineState {
        MachineState {
            memory: self.memory@,
            v: self.v@,
            i: self.i,
            pc: self.pc,
            stack: self.stack@,
            sp: self.sp,
            delay_timer: self.delay_timer,
            sound_timer: self.sound_timer,
            gfx: self.gfx@,
            draw_flag: self.draw_flag,
            key: self.key@,
        }
    }
}

pub(crate) proof fn lemma_pixel_coords(k: int, x0: int, y0: int)
    requires
        0 <= k < 2048,
        0 <= x0 < 64,
        0 <= y0 < 32,
    ensures
        k == ((y0 + sprite_row(y0, k)) % 32) * 64 + (x0 + sprite_col(x0, k)) % 64,
        0 <= sprite_row(y0, k) < 32,
        0 <= sprite_col(x0, k) < 64,
{
    let q = k / 64;
    let c = k % 64;
    assert(k == q * 64 + c && 0 <= q < 32 && 0 <= c < 64);
    if q >= y0 {
        assert(sprite_row(y0, k) == q - y0);
    } else {
        assert(sprite_row(y0, k) == q - y0 + 32);
    }
    assert((y0 + sprite_row(y0, k)) % 32 == q);
    if c >= x0 {
        assert(sprite_col(x0, k) == c - x0);
    } else {
        assert(sprite_col(x0, k) == c - x0 + 64);
    }
    assert((x0 + sprite_col(x0, k)) % 64 == c);
}

pub(crate) proof fn lemma_target(x0: int, y0: int, line: int, b: int)
    requires
        0 <= x0 < 64,
        0 <= y0 < 32,
        0 <= line < 16,
        0 <= b < 8,
    ensures
        ({
            let idx = ((y0 + line) % 32) * 64 + (x0 + b) % 64;
            &&& 0 <= idx < 2048
            &&& sprite_row(y0, idx) == line
            &&& sprite_col(x0, idx) == b
        }),
{
    let idx = ((y0 + line) % 32) * 64 + (x0 + b) % 64;
    assert(idx / 64 == (y0 + line) % 32);
    assert(idx % 64 == (x0 + b) % 64);
}

impl Chip8 {
    /// A machine in its initial state.
    pub fn new() -> (r: Chip8)
        ensures
            r@ == initial_state(),
            r@.wf(),
    {
        let r = Chip8 {
            memory: font_memory(),
            v: [0u8; 16],
            i: 0,
            pc: PROGRAM_START,
            gfx: [0u8; 2048],
            draw_flag: false,
            delay_timer: 0,
            sound_timer: 0,
            stack: [0u16; 16],
            sp: 0,
            key: [0u8; 16],
        };
        assert(r.v@ =~= Seq::new(16, |k: int| 0u8));
        assert(r.key@ =~= Seq::new(16, |k: int| 0u8));
        assert(r.stack@ =~= Seq::new(16, |k: int| 0u16));
        assert(r.gfx@ =~= Seq::new(2048, |k: int| 0u8));
        r
    }

    /// Returns the machine to its initial state.
    pub fn reset(&mut self)
        ensures
            final(self)@ == initial_state(),
            final(self)@.wf(),
    {
        *self = Chip8::new();
    }

    /// Copies `bytes` into memory at `origin`, leaving everything else as
    /// it was; fails, changing nothing, when the program would run past the
    /// end of memory.
    pub fn load_program(&mut self, bytes: &[u8], origin: usize) -> (r: Result<(), ChipError>)
        requires
            old(self)@.wf(),
        ensures
            final(self)@.wf(),
            r is Err <==> origin + bytes@.len() > 4096,
            r is Err ==> r == Err::<(), ChipError>(ChipError::ProgramTooLarge) && final(self)@ == old(self)@,
            r is Ok ==> final(self)@ == (MachineState {
                memory: loaded(old(self)@.memory, bytes@, origin as int),
                ..old(self)@
            }),
    {
        if origin > MEMORY_SIZE || bytes.len() > MEMORY_SIZE - origin {
            return Err(ChipError::ProgramTooLarge);
        }
        let ghost s = self@;
        let mut k: usize = 0;
        while k < bytes.len()
            invariant
                origin + bytes@.len() <= 4096,
                k <= bytes@.len(),
                s.wf(),
                self@ == (MachineState { memory: self@.memory, ..s }),
                self.memory@ == loaded(s.memory, bytes@.take(k as int), origin as int),
            decreases bytes@.len() - k,
        {
            self.memory[origin + k] = bytes[k];
            k = k + 1;
            assert(self.memory@ =~= loaded(s.memory, bytes@.take(k as int), origin as int));
        }
        assert(bytes@.take(k as int) =~= bytes@);
        Ok(())
    }

    /// Copies as much of `game` as fits into the program area at `0x200`
    /// and returns the number of bytes copied.
    pub fn load_game(&mut self, game: &[u8]) -> (r: usize)
        requires
            old(self)@.wf(),
        ensures
            final(self)@.wf(),
            r as int == if game@.len() < 4096 - 0x200 { game@.len() as int } else { 4096 - 0x200 },
            final(self)@ == (MachineState {
                memory: loaded(old(self)@.memory, game@.take(r as int), 0x200),
                ..old(self)@
            }),
    {
        let room = MEMORY_SIZE - PROGRAM_START as usize;
        let size = if game.len() < room { game.len() } else { room };
        let origin = PROGRAM_START as usize;
        let ghost s = self@;
        let mut k: usize = 0;
        while k < size
            invariant
                size <= game@.len(),
                size == 4096 - 0x200 || size == game@.len(),
                size <= 4096 - 0x200,
                origin == 0x200,
                k <= size,
                s.wf(),
                self@ == (MachineState { memory: self@.memory, ..s }),
                self.memory@ == loaded(s.memory, game@.take(k as int), origin as int),
            decreases size - k,
        {
            self.memory[origin + k] = game[k];
            k = k + 1;
            assert(self.memory@ =~= loaded(s.memory, game@.take(k as int), origin as int));
        }
        size
    }

    /// Register `V[x]`.
    pub fn register(&self, x: usize) -> (r: u8)
        requires
            x < 16,
        ensures
            r == self@.v[x as int],
    {
        self.v[x]
    }

    /// The index register `I`.
    pub fn index_register(&self) -> (r: u16)
        ensures
            r == self@.i,
    {
        self.i
    }

    /// The address of the next instruction.
    pub fn program_counter(&self) -> (r: u16)
        ensures
            r == self@.pc,
    {
        self.pc
    }

    /// Number of return addresses on the call stack.
    pub fn stack_pointer(&self) -> (r: u16)
        ensures
            r == self@.sp,
    {
        self.sp
    }

    /// The delay timer.
    pub fn delay_timer(&self) -> (r: u8)
        ensures
            r == self@.delay_timer,
    {
        self.delay_timer
    }

    /// The sound timer; a tone should sound while it is nonzero.
    pub fn sound_timer(&self) -> (r: u8)
        ensures
            r == self@.sound_timer,
    {
        self.sound_timer
    }

    /// The byte at `addr`.
    pub fn memory_at(&self, addr: usize) -> (r: u8)
        requires
            addr < 4096,
            self@.wf(),
        ensures
            r == self@.memory[addr as int],
    {
        self.memory[addr]
    }

    /// The framebuffer, row-major: pixel `(x, y)` is at `y * 64 + x`.
    pub fn framebuffer(&self) -> (r: &[u8; 2048])
        ensures
            r@ == self@.gfx,
    {
        &self.gfx
    }

    /// Whether a draw happened since the flag was last taken.
    pub fn needs_redraw(&self) -> (r: bool)
        ensures
            r == self@.draw_flag,
    {
        self.draw_flag
    }

    /// Reads and clears the redraw flag.
    pub fn take_redraw_flag(&mut self) -> (r: bool)
        requires
            old(self)@.wf(),
        ensures
            r == old(self)@.draw_flag,
            final(self)@ == (MachineState { draw_flag: false, ..old(self)@ }),
            final(self)@.wf(),
    {
        let r = self.draw_flag;
        self.draw_flag = false;
        r
    }

    /// Draws the `n`-row sprite at `memory[I..I+n)` at `(x0, y0)`.
    fn draw_sprite(&mut self, n: u16, x0: u16, y0: u16)
        requires
            old(self)@.wf(),
            n < 16,
            x0 < 64,
            y0 < 32,
            old(self).i + n <= 4096,
        ensures
            final(self)@ == draw_spec(old(self)@, n as int, x0 as int, y0 as int),
    {
        let ghost s = self@;
        let mut vf: u8 = 0;
        let mut line: u16 = 0;
        while line < n
            invariant
                self@ == (MachineState { gfx: self@.gfx, ..s }),
                s.wf(),
                n < 16,
                x0 < 64,
                y0 < 32,
                s.i + n <= 4096,
                line <= n,
                self.gfx@.len() == 2048,
                forall|k: int|
                    0 <= k < 2048 ==> #[trigger] self.gfx@[k] == if lit(s.memory, s.i as int, n as int, x0 as int, y0 as int, k)
                        && sprite_row(y0 as int, k) < line {
                        toggle(s.gfx[k])
                    } else {
                        s.gfx[k]
                    },
                vf == 1 <==> exists|k: int|
                    0 <= k < 2048 && #[trigger] lit(s.memory, s.i as int, n as int, x0 as int, y0 as int, k)
                        && sprite_row(y0 as int, k) < line && s.gfx[k] == 1,
                vf <= 1,
            decreases n - line,
        {
            let data = self.memory[(self.i + line) as usize];
            let mut b: u16 = 0;
            while b < 8
                invariant
                    self@ == (MachineState { gfx: self@.gfx, ..s }),
                    s.wf(),
                    n < 16,
                    x0 < 64,
                    y0 < 32,
                    s.i + n <= 4096,
                    line < n,
                    b <= 8,
                    data == s.memory[s.i + line],
                    self.gfx@.len() == 2048,
                    forall|k: int|
                        0 <= k < 2048 ==> #[trigger] self.gfx@[k] == if lit(s.memory, s.i as int, n as int, x0 as int, y0 as int, k)
                            && (sprite_row(y0 as int, k) < line || (sprite_row(y0 as int, k) == line
                            && sprite_col(x0 as int, k) < b)) {
                            toggle(s.gfx[k])
                        } else {
                            s.gfx[k]
                        },
                    vf == 1 <==> exists|k: int|
                        0 <= k < 2048 && #[trigger] lit(s.memory, s.i as int, n as int, x0 as int, y0 as int, k)
                            && (sprite_row(y0 as int, k) < line || (sprite_row(y0 as int, k) == line
                            && sprite_col(x0 as int, k) < b)) && s.gfx[k] == 1,
                    vf <= 1,
                decreases 8 - b,
            {
                let ghost before = self.gfx@;
                let ghost idx = ((y0 + line) % 32) as int * 64 + ((x0 + b) % 64) as int;
                proof {
                    lemma_target(x0 as int, y0 as int, line as int, b as int);
                    assert forall|k: int|
                        0 <= k < 2048 && sprite_row(y0 as int, k) == line && sprite_col(x0 as int, k) == b
                            implies k == idx by {
                        lemma_pixel_coords(k, x0 as int, y0 as int);
                    }
                }
                if data & (0x80u8 >> (b as u8)) != 0 {
                    let target = (((y0 + line) % 32) * 64 + (x0 + b) % 64) as usize;
                    assert(target == idx);
                    assert(lit(s.memory, s.i as int, n as int, x0 as int, y0 as int, idx));
                    if self.gfx[target] == 1 {
                        vf = 1;
                        self.gfx[target] = 0;
                    } else {
                        self.gfx[target] = 1;
                    }
                } else {
                    assert(!sprite_bit(data, b as int));
                }
                b = b + 1;
            }
            line = line + 1;
        }
        proof {
            assert forall|k: int|
                0 <= k < 2048 && #[trigger] lit(s.memory, s.i as int, n as int, x0 as int, y0 as int, k)
                    implies sprite_row(y0 as int, k) < line by {}
        }
        self.v[15] = vf;
        self.draw_flag = true;
        assert(self.gfx@ =~= drawn(s, n as int, x0 as int, y0 as int));
    }

    /// Executes one decoded instruction located at the program counter.
    /// On an error the machine is left as it was.
    fn execute(&mut self, ins: Instruction, rnd: u8) -> (r: Result<(), ChipError>)
        requires
            old(self)@.wf(),
            ins.wf(),
            old(self).pc < 4095,
        ensures
            final(self)@.wf(),
            exec_spec(old(self)@, ins, rnd) == outcome(r, final(self)@),
            r is Err ==> final(self)@ == old(self)@,
    {
        match ins {
            Instruction::Return | Instruction::Jump { .. } | Instruction::Call { .. } | Instruction::SkipEq { .. } | Instruction::SkipNe { .. } | Instruction::SkipEqReg { .. } | Instruction::SkipNeReg { .. } | Instruction::JumpOffset { .. } | Instruction::SkipKeyDown { .. } | Instruction::WaitKey { .. } | Instruction::SkipKeyUp { .. } => self.execute_control(ins, rnd),
            Instruction::SetImm { .. } | Instruction::AddImm { .. } | Instruction::Copy { .. } | Instruction::Or { .. } | Instruction::And { .. } | Instruction::Xor { .. } | Instruction::Random { .. } => self.execute_register_op(ins, rnd),
            Instruction::AddReg { .. } | Instruction::SubReg { .. } | Instruction::ShiftRight { .. } | Instruction::SubRev { .. } | Instruction::ShiftLeft { .. } => self.execute_flag_op(ins, rnd),
            Instruction::ClearScreen | Instruction::SetIndex { .. } | Instruction::Draw { .. } | Instruction::AddIndex { .. } | Instruction::GetDelay { .. } | Instruction::SetDelay { .. } | Instruction::SetSound { .. } | Instruction::FontAddr { .. } | Instruction::StoreBcd { .. } | Instruction::StoreRegs { .. } | Instruction::LoadRegs { .. } => self.execute_memory_op(ins, rnd),
        }
    }

    /// Control flow: jumps, calls, returns, skips and the wait for a key.
    fn execute_control(&mut self, ins: Instruction, rnd: u8) -> (r: Result<(), ChipError>)
        requires
            old(self)@.wf(),
            ins.wf(),
            old(self).pc < 4095,
            ins is Return || ins is Jump || ins is Call || ins is SkipEq || ins is SkipNe || ins is SkipEqReg || ins is SkipNeReg || ins is JumpOffset || ins is SkipKeyDown || ins is WaitKey || ins is SkipKeyUp,
        ensures
            final(self)@.wf(),
            exec_spec(old(self)@, ins, rnd) == outcome(r, final(self)@),
            r is Err ==> final(self)@ == old(self)@,
    {
        match ins {
            Instruction::Return => {
                if self.sp == 0 {
                    return Err(ChipError::StackUnderflow);
                }
                self.sp = self.sp - 1;
                self.pc = self.stack[self.sp as usize] + 2;
            },
            Instruction::Jump { addr } => {
                self.pc = addr;
            },
            Instruction::Call { addr } => {
                if self.sp >= STACK_DEPTH {
                    return Err(ChipError::StackOverflow);
                }
                self.stack[self.sp as usize] = self.pc;
                self.sp = self.sp + 1;
                self.pc = addr;
            },
            Instruction::SkipEq { x, nn } => {
                if self.v[x as usize] == nn {
                    self.pc = self.pc + 4;
                } else {
                    self.pc = self.pc + 2;
                }
            },
            Instruction::SkipNe { x, nn } => {
                if self.v[x as usize] != nn {
                    self.pc = self.pc + 4;
                } else {
                    self.pc = self.pc + 2;
                }
            },
            Instruction::SkipEqReg { x, y } => {
                if self.v[x as usize] == self.v[y as usize] {
                    self.pc = self.pc + 4;
                } else {
                    self.pc = self.pc + 2;
                }
            },
            Instruction::SkipNeReg { x, y } => {
                if self.v[x as usize] != self.v[y as usize] {
                    self.pc = self.pc + 4;
                } else {
                    self.pc = self.pc + 2;
                }
            },
            Instruction::JumpOffset { addr } => {
                self.pc = addr + self.v[0] as u16;
            },
            Instruction::SkipKeyDown { x } => {
                if self.key[(self.v[x as usize] % 16) as usize] == 1 {
                    self.pc = self.pc + 4;
                } else {
                    self.pc = self.pc + 2;
                }
            },
            Instruction::WaitKey { x } => {
                let k = self.first_pressed_key();
                if k < 16 {
                    self.v[x as usize] = k as u8;
                    self.pc = self.pc + 2;
                }
            },
            Instruction::SkipKeyUp { x } => {
                if self.key[(self.v[x as usize] % 16) as usize] != 1 {
                    self.pc = self.pc + 4;
                } else {
                    self.pc = self.pc + 2;
                }
            },
            _ => {},
        }
        Ok(())
    }

    /// Register loads and bitwise logic.
    fn execute_register_op(&mut self, ins: Instruction, rnd: u8) -> (r: Result<(), ChipError>)
        requires
            old(self)@.wf(),
            ins.wf(),
            old(self).pc < 4095,
            ins is SetImm || ins is AddImm || ins is Copy || ins is Or || ins is And || ins is Xor || ins is Random,
        ensures
            final(self)@.wf(),
            exec_spec(old(self)@, ins, rnd) == outcome(r, final(self)@),
            r is Err ==> final(self)@ == old(self)@,
    {
        match ins {
            Instruction::SetImm { x, nn } => {
                self.v[x as usize] = nn;
                self.pc = self.pc + 2;
            },
            Instruction::AddImm { x, nn } => {
                self.v[x as usize] = ((self.v[x as usize] as u16 + nn as u16) % 256) as u8;
                self.pc = self.pc + 2;
            },
            Instruction::Copy { x, y } => {
                self.v[x as usize] = self.v[y as usize];
                self.pc = self.pc + 2;
            },
            Instruction::Or { x, y } => {
                self.v[x as usize] = self.v[x as usize] | self.v[y as usize];
                self.pc = self.pc + 2;
            },
            Instruction::And { x, y } => {
                self.v[x as usize] = self.v[x as usize] & self.v[y as usize];
                self.pc = self.pc + 2;
            },
            Instruction::Xor { x, y } => {
                self.v[x as usize] = self.v[x as usize] ^ self.v[y as usize];
                self.pc = self.pc + 2;
            },
            Instruction::Random { x, nn } => {
                self.v[x as usize] = rnd & nn;
                self.pc = self.pc + 2;
            },
            _ => {},
        }
        Ok(())
    }

    /// Register arithmetic that reports a carry, borrow or shifted-out bit in `VF`.
    fn execute_flag_op(&mut self, ins: Instruction, rnd: u8) -> (r: Result<(), ChipError>)
        requires
            old(self)@.wf(),
            ins.wf(),
            old(self).pc < 4095,
            ins is AddReg || ins is SubReg || ins is ShiftRight || ins is SubRev || ins is ShiftLeft,
        ensures
            final(self)@.wf(),
            exec_spec(old(self)@, ins, rnd) == outcome(r, final(self)@),
            r is Err ==> final(self)@ == old(self)@,
    {
        match ins {
            Instruction::AddReg { x, y } => {
                let sum = self.v[x as usize] as u16 + self.v[y as usize] as u16;
                self.v[15] = if sum > 255 { 1 } else { 0 };
                self.v[x as usize] = (sum % 256) as u8;
                self.pc = self.pc + 2;
            },
            Instruction::SubReg { x, y } => {
                let a = self.v[x as usize];
                let b = self.v[y as usize];
                self.v[15] = if a < b { 0 } else { 1 };
                self.v[x as usize] = ((a as u16 + 256 - b as u16) % 256) as u8;
                self.pc = self.pc + 2;
            },
            Instruction::ShiftRight { x, y } => {
                let a = self.v[x as usize];
                self.v[15] = a % 2;
                self.v[x as usize] = a / 2;
                self.pc = self.pc + 2;
            },
            Instruction::SubRev { x, y } => {
                let a = self.v[x as usize];
                let b = self.v[y as usize];
                self.v[15] = if b < a { 0 } else { 1 };
                self.v[x as usize] = ((b as u16 + 256 - a as u16) % 256) as u8;
                self.pc = self.pc + 2;
            },
            Instruction::ShiftLeft { x, y } => {
                let a = self.v[x as usize];
                self.v[15] = a / 128;
                self.v[x as usize] = ((a as u16 * 2) % 256) as u8;
                self.pc = self.pc + 2;
            },
            _ => {},
        }
        Ok(())
    }

    /// Index register, memory, screen and timer instructions.
    fn execute_memory_op(&mut self, ins: Instruction, rnd: u8) -> (r: Result<(), ChipError>)
        requires
            old(self)@.wf(),
            ins.wf(),
            old(self).pc < 4095,
            ins is ClearScreen || ins is SetIndex || ins is Draw || ins is AddIndex || ins is GetDelay || ins is SetDelay || ins is SetSound || ins is FontAddr || ins is StoreBcd || ins is StoreRegs || ins is LoadRegs,
        ensures
            final(self)@.wf(),
            exec_spec(old(self)@, ins, rnd) == outcome(r, final(self)@),
            r is Err ==> final(self)@ == old(self)@,
    {
        match ins {
            Instruction::ClearScreen => {
                self.gfx = [0u8; 2048];
                self.draw_flag = true;
                self.pc = self.pc + 2;
                assert(self.gfx@ =~= Seq::new(2048, |k: int| 0u8));
            },
            Instruction::SetIndex { addr } => {
                self.i = addr;
                self.pc = self.pc + 2;
            },
            Instruction::Draw { x, y, n } => {
                if self.i as usize + n as usize > MEMORY_SIZE {
                    return Err(ChipError::AddressOutOfBounds);
                }
                let x0 = (self.v[x as usize] % 64) as u16;
                let y0 = (self.v[y as usize] % 32) as u16;
                self.draw_sprite(n as u16, x0, y0);
                self.pc = self.pc + 2;
            },
            Instruction::AddIndex { x } => {
                self.i = (self.i + self.v[x as usize] as u16) % 4096;
                self.pc = self.pc + 2;
            },
            Instruction::GetDelay { x } => {
                self.v[x as usize] = self.delay_timer;
                self.pc = self.pc + 2;
            },
            Instruction::SetDelay { x } => {
                self.delay_timer = self.v[x as usize];
                self.pc = self.pc + 2;
            },
            Instruction::SetSound { x } => {
                self.sound_timer = self.v[x as usize];
                self.pc = self.pc + 2;
            },
            Instruction::FontAddr { x } => {
                self.i = self.v[x as usize] as u16 * 5;
                self.pc = self.pc + 2;
            },
            Instruction::StoreBcd { x } => {
                if self.i as usize + 3 > MEMORY_SIZE {
                    return Err(ChipError::AddressOutOfBounds);
                }
                let val = self.v[x as usize];
                let at = self.i as usize;
                self.memory[at] = val / 100;
                self.memory[at + 1] = (val / 10) % 10;
                self.memory[at + 2] = val % 10;
                self.pc = self.pc + 2;
            },
            Instruction::StoreRegs { x } => {
                if self.i as usize + x as usize + 1 > MEMORY_SIZE {
                    return Err(ChipError::AddressOutOfBounds);
                }
                self.store_registers(x);
                self.pc = self.pc + 2;
            },
            Instruction::LoadRegs { x } => {
                if self.i as usize + x as usize + 1 > MEMORY_SIZE {
                    return Err(ChipError::AddressOutOfBounds);
                }
                self.load_registers(x);
                self.pc = self.pc + 2;
            },
            _ => {},
        }
        Ok(())
    }

    /// Stores `V[0..=x]` at `memory[I..=I+x]`.
    fn store_registers(&mut self, x: u8)
        requires
            old(self)@.wf(),
            x < 16,
            old(self).i + x + 1 <= 4096,
        ensures
            final(self)@ == (MachineState { memory: stored_regs(old(self)@, x), ..old(self)@ }),
    {
        let ghost s = self@;
        let at = self.i as usize;
        let mut k: usize = 0;
        while k <= x as usize
            invariant
                x < 16,
                k <= x + 1,
                at == s.i,
                s.i + x + 1 <= 4096,
                s.wf(),
                self@ == (MachineState { memory: self@.memory, ..s }),
                self.memory@ == Seq::new(
                    4096,
                    |j: int| if s.i <= j < s.i + k { s.v[j - s.i] } else { s.memory[j] },
                ),
            decreases x + 1 - k,
        {
            self.memory[at + k] = self.v[k];
            k = k + 1;
            assert(self.memory@ =~= Seq::new(
                4096,
                |j: int| if s.i <= j < s.i + k { s.v[j - s.i] } else { s.memory[j] },
            ));
        }
        assert(self.memory@ =~= stored_regs(s, x));
    }

    /// Loads `V[0..=x]` from `memory[I..=I+x]`.
    fn load_registers(&mut self, x: u8)
        requires
            old(self)@.wf(),
            x < 16,
            old(self).i + x + 1 <= 4096,
        ensures
            final(self)@ == (MachineState { v: loaded_regs(old(self)@, x), ..old(self)@ }),
    {
        let ghost s = self@;
        let at = self.i as usize;
        let mut k: usize = 0;
        while k <= x as usize
            invariant
                x < 16,
                k <= x + 1,
                at == s.i,
                s.i + x + 1 <= 4096,
                s.wf(),
                self@ == (MachineState { v: self@.v, ..s }),
                self.v@ == Seq::new(16, |j: int| if j < k { s.memory[s.i + j] } else { s.v[j] }),
            decreases x + 1 - k,
        {
            self.v[k] = self.memory[at + k];
            k = k + 1;
            assert(self.v@ =~= Seq::new(16, |j: int| if j < k { s.memory[s.i + j] } else { s.v[j] }));
        }
        assert(self.v@ =~= loaded_regs(s, x));
    }

    /// The lowest pressed key, or 16 if none is pressed.
    fn first_pressed_key(&self) -> (k: usize)
        ensures
            k as int == first_pressed(self@.key),
    {
        let mut k: usize = 0;
        while k < 16 && self.key[k] != 1
            invariant
                k <= 16,
                first_pressed(self@.key) == first_pressed_from(self@.key, k as int),
            decreases 16 - k,
        {
            k = k + 1;
        }
        k
    }

    /// Reads the instruction word at the program counter.
    pub fn fetch(&self) -> (r: Result<u16, ChipError>)
        ensures
            r == fetch_spec(self@),
    {
        if self.pc as usize + 1 >= MEMORY_SIZE {
            return Err(ChipError::AddressOutOfBounds);
        }
        let first = self.memory[self.pc as usize] as u16;
        let second = self.memory[self.pc as usize + 1] as u16;
        assert(first << 8u16 | second == first * 256 + second) by (bit_vector)
            requires
                first < 256,
                second < 256,
        ;
        Ok(first << 8 | second)
    }

    /// Counts both timers down by one, stopping at zero.
    fn update_timers(&mut self)
        ensures
            final(self)@ == tick(old(self)@),
    {
        if self.delay_timer > 0 {
            self.delay_timer = self.delay_timer - 1;
        }
        if self.sound_timer > 0 {
            self.sound_timer = self.sound_timer - 1;
        }
    }

    /// One fetch-decode-execute-timer cycle, with `rnd` as the random byte
    /// for `Cxnn`. On an error the machine is left as it was.
    pub fn step(&mut self, rnd: u8) -> (r: Result<(), ChipError>)
        requires
            old(self)@.wf(),
        ensures
            final(self)@.wf(),
            step_spec(old(self)@, rnd) == outcome(r, final(self)@),
            r is Err ==> final(self)@ == old(self)@,
    {
        let w = match self.fetch() {
            Ok(w) => w,
            Err(e) => return Err(e),
        };
        let ins = match decode(w) {
            Some(ins) => ins,
            None => return Err(ChipError::UnknownOpcode(w)),
        };
        match self.execute(ins, rnd) {
            Ok(()) => {
                self.update_timers();
                Ok(())
            },
            Err(e) => Err(e),
        }
    }

    /// One cycle with a freshly drawn random byte: the outcome is that of
    /// `step` for some byte.
    pub fn emulate_cycle(&mut self) -> (r: Result<(), ChipError>)
        requires
            old(self)@.wf(),
        ensures
            final(self)@.wf(),
            exists|rnd: u8| #[trigger] step_spec(old(self)@, rnd) == outcome(r, final(self)@),
            r is Err ==> final(self)@ == old(self)@,
    {
        let rnd = random_byte();
        self.step(rnd)
    }
}

/// Relies on `rand::random::<u8>`, which draws a byte from the thread-local
/// generator; nothing is known of its value.
#[verifier::external_body]
fn random_byte() -> (r: u8) {
    rand::random::<u8>()
}

} // verus!
