use vstd::prelude::*;
use crate::VmError;
use crate::decode::{Instr, decode_spec};

verus! {

/// Number of addressable memory cells.
pub const MEM_SIZE: usize = 4096;

/// Number of general-purpose registers V0..VF.
pub const NUM_REGS: usize = 16;

/// Width of the graphics plane in pixels.
pub const WIDTH: usize = 64;

/// Height of the graphics plane in pixels.
pub const HEIGHT: usize = 32;

/// Number of cells of the graphics plane.
pub const GFX_SIZE: usize = 2048;

/// Depth of the call stack.
pub const STACK_SIZE: usize = 16;

/// Number of hexadecimal keys.
pub const NUM_KEYS: usize = 16;

/// Number of memory bytes holding the built-in font sprites.
pub const FONT_BYTES: usize = 80;

/// Address at which a program image is placed.
pub const PROGRAM_START: usize = 512;

/// The mathematical model of the machine: every architectural store as a
/// sequence, every scalar register as its value.
#[verifier::ext_equal]
pub ghost struct VmState {
    /// The latch holding the most recently fetched opcode.
    pub opcode: u16,
    /// 4096 memory cells.
    pub mem: Seq<u8>,
    /// The registers V0..VF.
    pub regs: Seq<u8>,
    /// The index register I.
    pub ir: u16,
    /// The program counter.
    pub pc: u16,
    /// The graphics plane, row-major, one cell per pixel.
    pub gfx: Seq<u8>,
    /// The delay timer.
    pub delay: u8,
    /// The sound timer.
    pub sound: u8,
    /// The return-address stack.
    pub stack: Seq<u16>,
    /// The stack pointer: the number of addresses pushed.
    pub sp: u16,
    /// Key state, one cell per key; nonzero means pressed.
    pub key: Seq<u8>,
    /// Set when the graphics plane changed; cleared only by the caller.
    pub draw: bool,
}

impl VmState {
    /// Well-formedness: the stores have their architectural sizes, the stack
    /// pointer stays within the stack, every pixel cell is 0 or 1, and every
    /// stacked return address points into memory.
    pub open spec fn wf(self) -> bool {
        &&& self.mem.len() == MEM_SIZE
        &&& self.regs.len() == NUM_REGS
        &&& self.gfx.len() == GFX_SIZE
        &&& self.stack.len() == STACK_SIZE
        &&& self.key.len() == NUM_KEYS
        &&& self.sp <= STACK_SIZE
        &&& forall|i: int| 0 <= i < GFX_SIZE ==> self.gfx[i] == 0 || self.gfx[i] == 1
        &&& forall|i: int| 0 <= i < STACK_SIZE ==> self.stack[i] < MEM_SIZE
    }
}

/// Whether the two opcode bytes at the program counter are addressable.
pub open spec fn fetch_ok(s: VmState) -> bool {
    s.pc + 1 < MEM_SIZE
}

/// The opcode at the program counter: memory[PC] is the high byte,
/// memory[PC + 1] the low byte.
pub open spec fn fetched(s: VmState) -> u16 {
    (s.mem[s.pc as int] * 0x100 + s.mem[s.pc as int + 1]) as u16
}

/// The state after the fetch step: the opcode latch updated, nothing else.
pub open spec fn latched(s: VmState) -> VmState {
    VmState { opcode: fetched(s), ..s }
}

/// Whether sprite row `row` has its bit for column offset `xl` set.
/// Bit 7 is the leftmost pixel of the row.
pub open spec fn sprite_bit(row: u8, xl: u8) -> bool {
    row & (0x80u8 >> xl) != 0
}

/// The flat graphics-plane cell that column offset `xl`, row offset `yl` of a
/// sprite drawn at (vx, vy) lands on. Positions are not wrapped: a position
/// off the plane is a bounds violation.
pub open spec fn draw_pos(vx: u8, vy: u8, xl: int, yl: int) -> int {
    vx + xl + (vy + yl) * 64
}

/// Whether drawing sprite memory[I..I+n] at (V[x], V[y]) touches cell `pos`.
pub open spec fn draw_hits(s: VmState, x: u8, y: u8, n: u8, pos: int) -> bool {
    exists|yl: int, xl: int|
        0 <= yl < n && 0 <= xl < 8
            && sprite_bit(s.mem[s.ir + yl], xl as u8)
            && pos == #[trigger] draw_pos(s.regs[x as int], s.regs[y as int], xl, yl)
}

/// Whether the draw would read a sprite row outside memory or set a pixel
/// outside the graphics plane.
pub open spec fn draw_fails(s: VmState, x: u8, y: u8, n: u8) -> bool {
    ||| n > 0 && s.ir + n > MEM_SIZE
    ||| exists|yl: int, xl: int|
        0 <= yl < n && 0 <= xl < 8
            && sprite_bit(s.mem[s.ir + yl], xl as u8)
            && #[trigger] draw_pos(s.regs[x as int], s.regs[y as int], xl, yl) >= GFX_SIZE
}

/// Whether the draw lands a sprite bit on a pixel that is already set.
pub open spec fn draw_collides(s: VmState, x: u8, y: u8, n: u8) -> bool {
    exists|yl: int, xl: int|
        0 <= yl < n && 0 <= xl < 8
            && sprite_bit(s.mem[s.ir + yl], xl as u8)
            && s.gfx[#[trigger] draw_pos(s.regs[x as int], s.regs[y as int], xl, yl)] == 1
}

/// A pixel cell after an XOR with 1.
pub open spec fn flip(v: u8) -> u8 {
    if v == 1 { 0 } else { 1 }
}

/// The graphics plane after the draw: every touched cell flipped, every
/// other cell unchanged.
pub open spec fn draw_gfx(s: VmState, x: u8, y: u8, n: u8) -> Seq<u8> {
    Seq::new(GFX_SIZE as nat, |pos: int|
        if draw_hits(s, x, y, n, pos) { flip(s.gfx[pos]) } else { s.gfx[pos] })
}

/// Whether executing `i` in state `s` is a bounds violation. Independent of
/// the random byte: only indexes decide failure.
pub open spec fn instr_fails(s: VmState, i: Instr) -> bool {
    match i {
        Instr::Ret => s.sp == 0,
        Instr::Call { nnn } => s.sp >= STACK_SIZE,
        Instr::Draw { x, y, n } => draw_fails(s, x, y, n),
        Instr::SkipKey { x } => s.regs[x as int] >= NUM_KEYS,
        Instr::SkipNoKey { x } => s.regs[x as int] >= NUM_KEYS,
        Instr::StoreBcd { x } => s.ir + 2 >= MEM_SIZE,
        Instr::LoadRegs { x } => s.ir + x >= MEM_SIZE,
        _ => false,
    }
}

/// The state after executing `i` in state `s`, when `instr_fails` does not
/// hold. `rnd` is the byte the random source produced; only `RandMask`
/// reads it. The program counter advances by 2 unless the instruction says
/// otherwise; an unrecognized opcode changes nothing at all.
pub open spec fn apply_instr(s: VmState, i: Instr, rnd: u8) -> VmState {
    let pc2 = (s.pc + 2) as u16;
    let pc4 = (s.pc + 4) as u16;
    match i {
        Instr::Ret => VmState {
            sp: (s.sp - 1) as u16,
            pc: (s.stack[s.sp - 1] + 2) as u16,
            ..s
        },
        Instr::Jump { nnn } => VmState { pc: nnn, ..s },
        Instr::Call { nnn } => VmState {
            stack: s.stack.update(s.sp as int, s.pc),
            sp: (s.sp + 1) as u16,
            pc: nnn,
            ..s
        },
        Instr::SkipEq { x, nn } => VmState {
            pc: if s.regs[x as int] == nn { pc4 } else { pc2 },
            ..s
        },
        Instr::SkipNe { x, nn } => VmState {
            pc: if s.regs[x as int] != nn { pc4 } else { pc2 },
            ..s
        },
        Instr::SetReg { x, nn } => VmState {
            regs: s.regs.update(x as int, nn),
            pc: pc2,
            ..s
        },
        Instr::AddImm { x, nn } => VmState {
            regs: s.regs.update(x as int, ((s.regs[x as int] + nn) % 256) as u8),
            pc: pc2,
            ..s
        },
        Instr::CopyReg { x, y } => VmState {
            regs: s.regs.update(x as int, s.regs[y as int]),
            pc: pc2,
            ..s
        },
        Instr::AndReg { x, y } => VmState {
            regs: s.regs.update(x as int, s.regs[x as int] & s.regs[y as int]),
            pc: pc2,
            ..s
        },
        // The carry flag is written first, from the operands as they were;
        // the sum then reads the registers with the flag already in place,
        // so V15 as an operand sees the flag, as the machine does.
        Instr::AddReg { x, y } => {
            let carry: u8 = if s.regs[x as int] + s.regs[y as int] > 255 { 1 } else { 0 };
            let r1 = s.regs.update(15, carry);
            VmState {
                regs: r1.update(x as int, ((r1[x as int] + r1[y as int]) % 256) as u8),
                pc: pc2,
                ..s
            }
        },
        // VF = 1 when no borrow, 0 when V[y] > V[x]; the difference wraps.
        Instr::SubReg { x, y } => {
            let no_borrow: u8 = if s.regs[y as int] > s.regs[x as int] { 0 } else { 1 };
            let r1 = s.regs.update(15, no_borrow);
            VmState {
                regs: r1.update(x as int, ((r1[x as int] - r1[y as int]) % 256) as u8),
                pc: pc2,
                ..s
            }
        },
        Instr::SetIndex { nnn } => VmState { ir: nnn, pc: pc2, ..s },
        Instr::RandMask { x, nn } => VmState {
            regs: s.regs.update(x as int, nn & rnd),
            pc: pc2,
            ..s
        },
        Instr::Draw { x, y, n } => VmState {
            gfx: draw_gfx(s, x, y, n),
            regs: s.regs.update(15, if draw_collides(s, x, y, n) { 1u8 } else { 0u8 }),
            draw: true,
            pc: pc2,
            ..s
        },
        Instr::SkipKey { x } => VmState {
            pc: if s.key[s.regs[x as int] as int] != 0 { pc4 } else { pc2 },
            ..s
        },
        Instr::SkipNoKey { x } => VmState {
            pc: if s.key[s.regs[x as int] as int] == 0 { pc4 } else { pc2 },
            ..s
        },
        Instr::GetDelay { x } => VmState {
            regs: s.regs.update(x as int, s.delay),
            pc: pc2,
            ..s
        },
        Instr::SetDelay { x } => VmState {
            delay: s.regs[x as int],
            pc: pc2,
            ..s
        },
        Instr::FontAddr { x } => VmState {
            ir: (s.regs[x as int] * 5) as u16,
            pc: pc2,
            ..s
        },
        Instr::StoreBcd { x } => {
            let vx = s.regs[x as int];
            VmState {
                mem: s.mem
                    .update(s.ir as int, (vx / 100) as u8)
                    .update(s.ir + 1, ((vx / 10) % 10) as u8)
                    .update(s.ir + 2, (vx % 10) as u8),
                pc: pc2,
                ..s
            }
        },
        Instr::LoadRegs { x } => VmState {
            regs: Seq::new(NUM_REGS as nat, |i: int|
                if 0 <= i <= x { s.mem[s.ir + i] } else { s.regs[i] }),
            pc: pc2,
            ..s
        },
        Instr::Unknown => s,
    }
}

/// The timer step that ends every cycle: each timer above zero counts down
/// by one. The beep on the sound timer's transition from 1 to 0 has no
/// effect on the state.
pub open spec fn tick(s: VmState) -> VmState {
    VmState {
        delay: if s.delay > 0 { (s.delay - 1) as u8 } else { s.delay },
        sound: if s.sound > 0 { (s.sound - 1) as u8 } else { s.sound },
        ..s
    }
}

/// What one full cycle does. A fetch outside memory fails before anything
/// changes; a bounds violation during execution fails with only the opcode
/// latch updated; otherwise the fetched instruction runs, for some byte
/// from the random source, and the timers tick.
pub open spec fn cycle_result(pre: VmState, post: VmState, r: Result<(), VmError>) -> bool {
    if !fetch_ok(pre) {
        r == Err::<(), VmError>(VmError::OutOfBounds) && post == pre
    } else {
        let s1 = latched(pre);
        let i = decode_spec(fetched(pre));
        if instr_fails(s1, i) {
            r == Err::<(), VmError>(VmError::OutOfBounds) && post == s1
        } else {
            r == Ok::<(), VmError>(()) && exists|rnd: u8| post == tick(apply_instr(s1, i, rnd))
        }
    }
}

/// The memory contents after a program image is placed at the program
/// start address: the image bytes there, everything else unchanged.
pub open spec fn loaded_mem(mem: Seq<u8>, program: Seq<u8>) -> Seq<u8> {
    Seq::new(mem.len(), |i: int|
        if PROGRAM_START <= i < PROGRAM_START + program.len() {
            program[i - PROGRAM_START]
        } else {
            mem[i]
        })
}

} // verus!
