use vstd::prelude::*;
use crate::VmError;
use crate::buffer::Buffer;
use crate::decode::{Instr, decode};
use crate::state::{
    VmState, fetched, latched, sprite_bit, draw_pos, draw_hits, draw_fails,
    draw_collides, draw_gfx, flip, instr_fails, apply_instr, tick, cycle_result, loaded_mem,
    MEM_SIZE, NUM_REGS, WIDTH, HEIGHT, GFX_SIZE, STACK_SIZE, NUM_KEYS, FONT_BYTES,
    PROGRAM_START,
};

verus! {

/// The built-in font: sixteen 5-byte glyphs for the digits 0..F, placed at
/// the bottom of memory when the machine is built.
pub const CHIP8_FONTSET: [u8; 80] = [
    0xF0, 0x90, 0x90, 0x90, 0xF0, // 0
    0x20, 0x60, 0x20, 0x20, 0x70, // 1
    0xF0, 0x10, 0xF0, 0x80, 0xF0, // 2
    0xF0, 0x10, 0xF0, 0x10, 0xF0, // 3
    0x90, 0x90, 0xF0, 0x10, 0x10, // 4
    0xF0, 0x80, 0xF0, 0x10, 0xF0, // 5
    0xF0, 0x80, 0xF0, 0x90, 0xF0, // 6
    0xF0, 0x10, 0x20, 0x40, 0x40, // 7
    0xF0, 0x90, 0xF0, 0x90, 0xF0, // 8
    0xF0, 0x90, 0xF0, 0x10, 0xF0, // 9
    0xF0, 0x90, 0xF0, 0x90, 0x90, // A
    0xE0, 0x90, 0xE0, 0x90, 0xE0, // B
    0xF0, 0x80, 0x80, 0x80, 0xF0, // C
    0xE0, 0x90, 0x90, 0x90, 0xE0, // D
    0xF0, 0x80, 0xF0, 0x80, 0xF0, // E
    0xF0, 0x80, 0xF0, 0x80, 0x80, // F
];

/// The machine state a freshly built interpreter is in: the font at the
/// bottom of memory, the program counter at the program start, everything
/// else zero.
pub open spec fn initial_state() -> VmState {
    VmState {
        opcode: 0,
        mem: Seq::new(MEM_SIZE as nat, |i: int|
            if i < FONT_BYTES { CHIP8_FONTSET@[i] } else { 0u8 }),
        regs: Seq::new(NUM_REGS as nat, |i: int| 0u8),
        ir: 0,
        pc: 0x200,
        gfx: Seq::new(GFX_SIZE as nat, |i: int| 0u8),
        delay: 0,
        sound: 0,
        stack: Seq::new(STACK_SIZE as nat, |i: int| 0u16),
        sp: 0,
        key: Seq::new(NUM_KEYS as nat, |i: int| 0u8),
        draw: false,
    }
}

/// The interpreter: all architectural state, mutated only through `load_game`,
/// `emulate_cycle`, `set_keys` and `clear_draw_flag`.
pub struct Chip8 {
    opcode: u16,
    memory: Buffer<u8>,
    vr: Buffer<u8>,
    ir: u16,
    pc: u16,
    gfx: Buffer<u8>,
    delay_timer: u8,
    sound_timer: u8,
    stack: Buffer<u16>,
    sp: u16,
    key: Buffer<u8>,
    draw_flag: bool,
}

impl View for Chip8 {
    type V = VmState;

    closed spec fn view(&self) -> VmState {
        VmState {
            opcode: self.opcode,
            mem: self.memory@,
            regs: self.vr@,
            ir: self.ir,
            pc: self.pc,
            gfx: self.gfx@,
            delay: self.delay_timer,
            sound: self.sound_timer,
            stack: self.stack@,
            sp: self.sp,
            key: self.key@,
            draw: self.draw_flag,
        }
    }
}

/// The audio hook: invoked when the sound timer passes from 1 to 0. Audio
/// output belongs to a collaborator; the hook itself does nothing.
fn beep() {
}

/// Relies on rand::random: one byte drawn from the thread-local generator.
/// Nothing is promised of its value.
#[verifier::external_body]
fn random_byte() -> u8 {
    rand::random::<u8>()
}

impl Chip8 {
    /// A full reset: every store zeroed, the font written at address 0,
    /// the program counter at the program start address.
    pub fn new() -> (vm: Chip8)
        ensures
            vm@ == initial_state(),
            vm@.wf(),
    {
        let opcode: u16 = 0;
        let mut memory = Buffer::new(MEM_SIZE, 0u8);
        let vr = Buffer::new(NUM_REGS, 0u8);
        let ir: u16 = 0;
        let pc: u16 = 0x200;
        let gfx = Buffer::new(GFX_SIZE, 0u8);
        let delay_timer: u8 = 0;
        let sound_timer: u8 = 0;
        let stack = Buffer::new(STACK_SIZE, 0u16);
        let sp: u16 = 0;
        let key = Buffer::new(NUM_KEYS, 0u8);
        let draw_flag = false;

        let mut i: usize = 0;
        while i < FONT_BYTES
            invariant
                i <= FONT_BYTES,
                memory@.len() == MEM_SIZE,
                forall|j: int| 0 <= j < i ==> memory@[j] == CHIP8_FONTSET@[j],
                forall|j: int| i <= j < MEM_SIZE ==> memory@[j] == 0,
            decreases FONT_BYTES - i,
        {
            memory.set(i, CHIP8_FONTSET[i]);
            i = i + 1;
        }

        let vm = Chip8 {
            opcode,
            memory,
            vr,
            ir,
            pc,
            gfx,
            delay_timer,
            sound_timer,
            stack,
            sp,
            key,
            draw_flag,
        };
        proof {
            assert(vm@.mem =~= initial_state().mem);
            assert(vm@.regs =~= initial_state().regs);
            assert(vm@.gfx =~= initial_state().gfx);
            assert(vm@.stack =~= initial_state().stack);
            assert(vm@.key =~= initial_state().key);
            assert(vm@ =~= initial_state());
        }
        vm
    }

    /// Place a program image into memory at the program start address.
    /// An image larger than the memory window is refused whole: nothing
    /// about the machine changes.
    pub fn load_game(&mut self, program: &[u8]) -> (r: Result<(), VmError>)
        requires
            old(self)@.wf(),
        ensures
            final(self)@.wf(),
            program@.len() > MEM_SIZE - PROGRAM_START ==> r == Err::<(), VmError>(
                VmError::IOError,
            ) && final(self)@ == old(self)@,
            program@.len() <= MEM_SIZE - PROGRAM_START ==> r == Ok::<(), VmError>(())
                && final(self)@ == (VmState {
                    mem: loaded_mem(old(self)@.mem, program@),
                    ..old(self)@
                }),
    {
        if program.len() > MEM_SIZE - PROGRAM_START {
            return Err(VmError::IOError);
        }
        let ghost pre = self@;
        let mut i: usize = 0;
        while i < program.len()
            invariant
                pre.wf(),
                i <= program@.len(),
                program@.len() <= MEM_SIZE - PROGRAM_START,
                self@ == (VmState {
                    mem: self@.mem,
                    ..pre
                }),
                self@.mem.len() == MEM_SIZE,
                forall|j: int| PROGRAM_START <= j < PROGRAM_START + i
                    ==> self@.mem[j] == program@[j - PROGRAM_START],
                forall|j: int| 0 <= j < MEM_SIZE
                    && !(PROGRAM_START <= j < PROGRAM_START + i) ==> self@.mem[j] == pre.mem[j],
            decreases program@.len() - i,
        {
            self.memory.set(PROGRAM_START + i, program[i]);
            i = i + 1;
        }
        proof {
            assert(self@.mem =~= loaded_mem(pre.mem, program@));
            assert(self@ =~= (VmState { mem: loaded_mem(pre.mem, program@), ..pre }));
        }
        Ok(())
    }

    /// Whether the graphics plane changed since the flag was last cleared.
    pub fn is_draw_flag(&self) -> (r: bool)
        ensures
            r == self@.draw,
    {
        self.draw_flag
    }

    /// Reset the redraw flag; called by the collaborator that rendered the
    /// plane, never by the machine itself.
    pub fn clear_draw_flag(&mut self)
        ensures
            final(self)@ == (VmState { draw: false, ..old(self)@ }),
    {
        self.draw_flag = false;
    }

    /// Record a key press or release. Key codes at or past the number of
    /// keys are refused.
    pub fn set_keys(&mut self, code: u8, pressed: bool) -> (r: Result<(), VmError>)
        requires
            old(self)@.wf(),
        ensures
            final(self)@.wf(),
            code >= NUM_KEYS ==> r == Err::<(), VmError>(VmError::OutOfBounds)
                && final(self)@ == old(self)@,
            code < NUM_KEYS ==> r == Ok::<(), VmError>(()) && final(self)@ == (VmState {
                key: old(self)@.key.update(code as int, if pressed { 1u8 } else { 0u8 }),
                ..old(self)@
            }),
    {
        if (code as usize) < NUM_KEYS {
            self.key.set(code as usize, if pressed { 1 } else { 0 });
            Ok(())
        } else {
            Err(VmError::OutOfBounds)
        }
    }

    /// Whether the pixel at `row`, `col` is set. Positions off the plane
    /// are refused.
    pub fn is_set(&self, row: usize, col: usize) -> (r: Result<bool, VmError>)
        requires
            self@.wf(),
        ensures
            row < HEIGHT && col < WIDTH ==> r == Ok::<bool, VmError>(
                self@.gfx[row * WIDTH + col] == 1,
            ),
            !(row < HEIGHT && col < WIDTH) ==> r == Err::<bool, VmError>(VmError::OutOfBounds),
    {
        if row < HEIGHT && col < WIDTH {
            Ok(self.gfx.get(row * WIDTH + col) == 1)
        } else {
            Err(VmError::OutOfBounds)
        }
    }

    /// The value of register V`x`.
    pub fn register(&self, x: u8) -> (r: Result<u8, VmError>)
        requires
            self@.wf(),
        ensures
            x < NUM_REGS ==> r == Ok::<u8, VmError>(self@.regs[x as int]),
            x >= NUM_REGS ==> r == Err::<u8, VmError>(VmError::OutOfBounds),
    {
        if (x as usize) < NUM_REGS {
            Ok(self.vr.get(x as usize))
        } else {
            Err(VmError::OutOfBounds)
        }
    }

    /// The memory byte at `addr`.
    pub fn memory_at(&self, addr: usize) -> (r: Result<u8, VmError>)
        requires
            self@.wf(),
        ensures
            addr < MEM_SIZE ==> r == Ok::<u8, VmError>(self@.mem[addr as int]),
            addr >= MEM_SIZE ==> r == Err::<u8, VmError>(VmError::OutOfBounds),
    {
        if addr < MEM_SIZE {
            Ok(self.memory.get(addr))
        } else {
            Err(VmError::OutOfBounds)
        }
    }

    /// The program counter.
    pub fn program_counter(&self) -> (r: u16)
        ensures
            r == self@.pc,
    {
        self.pc
    }

    /// The stack pointer: how many return addresses are pushed.
    pub fn stack_pointer(&self) -> (r: u16)
        ensures
            r == self@.sp,
    {
        self.sp
    }

    /// The timer step that ends every cycle.
    fn update_timers(&mut self)
        ensures
            final(self)@ == tick(old(self)@),
    {
        if self.delay_timer > 0 {
            self.delay_timer = self.delay_timer - 1;
        }
        if self.sound_timer > 0 {
            if self.sound_timer == 1 {
                beep()
            }
            self.sound_timer = self.sound_timer - 1;
        }
    }
}

} // verus!

verus! {

impl Chip8 {
    /// 8XY4: the carry flag is decided from the operands first and written
    /// to VF; the wrapping sum then reads the registers as they stand, so a
    /// sum aimed at VF sees the flag it just received.
    fn add_vx_vy(&mut self, x: u8, y: u8)
        requires
            old(self)@.wf(),
            x < 16,
            y < 16,
            old(self)@.pc < 4095,
        ensures
            final(self)@.wf(),
            final(self)@ == apply_instr(old(self)@, Instr::AddReg { x, y }, 0),
    {
        let ghost s0 = old(self)@;
        let vx = self.vr.get(x as usize);
        let vy = self.vr.get(y as usize);
        if vy > 0xFF - vx {
            self.vr.set(15, 1u8);
        } else {
            self.vr.set(15, 0u8);
        }
        let vx2 = self.vr.get(x as usize);
        let vy2 = self.vr.get(y as usize);
        self.vr.set(x as usize, vx2.wrapping_add(vy2));
        self.pc = self.pc + 2;
        proof {
            assert(vx2.wrapping_add(vy2) == ((vx2 + vy2) % 256) as u8);
            assert(self@ =~= apply_instr(s0, Instr::AddReg { x, y }, 0));
        }
    }

    /// The 8XY_ family: copy, AND, add with carry, subtract with borrow
    /// flag. The subtraction keeps the standard semantics: VF = 0 exactly
    /// when VY > VX, and VX wraps below zero.
    fn update_registers(&mut self, i: Instr)
        requires
            old(self)@.wf(),
            old(self)@.pc < 4095,
            (i matches Instr::CopyReg { x, y } && x < 16 && y < 16)
                || (i matches Instr::AndReg { x, y } && x < 16 && y < 16)
                || (i matches Instr::AddReg { x, y } && x < 16 && y < 16)
                || (i matches Instr::SubReg { x, y } && x < 16 && y < 16),
        ensures
            final(self)@.wf(),
            final(self)@ == apply_instr(old(self)@, i, 0),
    {
        let ghost s0 = old(self)@;
        match i {
            Instr::CopyReg { x, y } => {
                let vy = self.vr.get(y as usize);
                self.vr.set(x as usize, vy);
                self.pc = self.pc + 2;
                proof {
                    assert(self@ =~= apply_instr(s0, i, 0));
                }
            },
            Instr::AndReg { x, y } => {
                let vx = self.vr.get(x as usize);
                let vy = self.vr.get(y as usize);
                self.vr.set(x as usize, vx & vy);
                self.pc = self.pc + 2;
                proof {
                    assert(self@ =~= apply_instr(s0, i, 0));
                }
            },
            Instr::AddReg { x, y } => {
                self.add_vx_vy(x, y);
            },
            Instr::SubReg { x, y } => {
                let vx = self.vr.get(x as usize);
                let vy = self.vr.get(y as usize);
                if vy > vx {
                    self.vr.set(15, 0u8);
                } else {
                    self.vr.set(15, 1u8);
                }
                let vx2 = self.vr.get(x as usize);
                let vy2 = self.vr.get(y as usize);
                self.vr.set(x as usize, vx2.wrapping_sub(vy2));
                self.pc = self.pc + 2;
                proof {
                    assert(vx2.wrapping_sub(vy2) == ((vx2 - vy2) % 256) as u8);
                    assert(self@ =~= apply_instr(s0, i, 0));
                }
            },
            _ => {
                proof {
                    assert(false);
                }
            },
        }
    }

    /// The EX__ family: skip the next instruction according to the state of
    /// key VX. A register value at or past the number of keys is a bounds
    /// violation.
    fn maybe_skip_next(&mut self, i: Instr) -> (r: Result<(), VmError>)
        requires
            old(self)@.wf(),
            old(self)@.pc < 4095,
            (i matches Instr::SkipKey { x } && x < 16)
                || (i matches Instr::SkipNoKey { x } && x < 16),
        ensures
            final(self)@.wf(),
            instr_fails(old(self)@, i) ==> r == Err::<(), VmError>(VmError::OutOfBounds)
                && final(self)@ == old(self)@,
            !instr_fails(old(self)@, i) ==> r == Ok::<(), VmError>(())
                && final(self)@ == apply_instr(old(self)@, i, 0),
    {
        let ghost s0 = old(self)@;
        match i {
            Instr::SkipKey { x } => {
                let vx = self.vr.get(x as usize);
                if vx as usize >= NUM_KEYS {
                    return Err(VmError::OutOfBounds);
                }
                if self.key.get(vx as usize) != 0 {
                    self.pc = self.pc + 4;
                } else {
                    self.pc = self.pc + 2;
                }
                proof {
                    assert(self@ =~= apply_instr(s0, i, 0));
                }
                Ok(())
            },
            Instr::SkipNoKey { x } => {
                let vx = self.vr.get(x as usize);
                if vx as usize >= NUM_KEYS {
                    return Err(VmError::OutOfBounds);
                }
                if self.key.get(vx as usize) == 0 {
                    self.pc = self.pc + 4;
                } else {
                    self.pc = self.pc + 2;
                }
                proof {
                    assert(self@ =~= apply_instr(s0, i, 0));
                }
                Ok(())
            },
            _ => {
                proof {
                    assert(false);
                }
                Err(VmError::OutOfBounds)
            },
        }
    }

    /// FX33: the hundreds, tens and ones digits of VX, written at
    /// memory[I], memory[I+1], memory[I+2].
    fn store_bcd(&mut self, x: u8) -> (r: Result<(), VmError>)
        requires
            old(self)@.wf(),
            x < 16,
            old(self)@.pc < 4095,
        ensures
            final(self)@.wf(),
            instr_fails(old(self)@, Instr::StoreBcd { x }) ==> r == Err::<(), VmError>(
                VmError::OutOfBounds,
            ) && final(self)@ == old(self)@,
            !instr_fails(old(self)@, Instr::StoreBcd { x }) ==> r == Ok::<(), VmError>(())
                && final(self)@ == apply_instr(old(self)@, Instr::StoreBcd { x }, 0),
    {
        let ghost s0 = old(self)@;
        let irn = self.ir as usize;
        if irn + 2 >= MEM_SIZE {
            return Err(VmError::OutOfBounds);
        }
        let vx = self.vr.get(x as usize);
        self.memory.set(irn, vx / 100);
        self.memory.set(irn + 1, (vx / 10) % 10);
        self.memory.set(irn + 2, (vx % 100) % 10);
        self.pc = self.pc + 2;
        proof {
            assert((vx % 100) % 10 == vx % 10) by (nonlinear_arith);
            assert(self@ =~= apply_instr(s0, Instr::StoreBcd { x }, 0));
        }
        Ok(())
    }

    /// FX65: fill V0 through VX from memory starting at I, advancing a local
    /// cursor; I itself keeps its value.
    #[verifier::loop_isolation(false)]
    fn load_regs(&mut self, x: u8) -> (r: Result<(), VmError>)
        requires
            old(self)@.wf(),
            x < 16,
            old(self)@.pc < 4095,
        ensures
            final(self)@.wf(),
            instr_fails(old(self)@, Instr::LoadRegs { x }) ==> r == Err::<(), VmError>(
                VmError::OutOfBounds,
            ) && final(self)@ == old(self)@,
            !instr_fails(old(self)@, Instr::LoadRegs { x }) ==> r == Ok::<(), VmError>(())
                && final(self)@ == apply_instr(old(self)@, Instr::LoadRegs { x }, 0),
    {
        let ghost s0 = old(self)@;
        let irn = self.ir as usize;
        if irn + x as usize >= MEM_SIZE {
            return Err(VmError::OutOfBounds);
        }
        let mut i: usize = 0;
        while i <= x as usize
            invariant
                i <= x as usize + 1,
                self@ == (VmState { regs: self@.regs, ..s0 }),
                self@.regs.len() == NUM_REGS,
                forall|j: int| 0 <= j < i ==> self@.regs[j] == s0.mem[s0.ir + j],
                forall|j: int| i <= j < NUM_REGS ==> self@.regs[j] == s0.regs[j],
            decreases x as usize + 1 - i,
        {
            let b = self.memory.get(irn + i);
            self.vr.set(i, b);
            i = i + 1;
        }
        self.pc = self.pc + 2;
        proof {
            assert(self@.regs =~= apply_instr(s0, Instr::LoadRegs { x }, 0).regs);
            assert(self@ =~= apply_instr(s0, Instr::LoadRegs { x }, 0));
        }
        Ok(())
    }
}

} // verus!

verus! {

/// Whether one of the first `k` sprite cells (row-major, eight per row) is
/// set and lands on plane cell `pos`. Proof scaffolding for the draw loop:
/// at `k` = 8 * n it coincides with `draw_hits`.
spec fn hits_first(s: VmState, x: u8, y: u8, k: int, pos: int) -> bool {
    exists|yl: int, xl: int|
        0 <= yl && 0 <= xl < 8 && 8 * yl + xl < k
            && sprite_bit(s.mem[s.ir + yl], xl as u8)
            && pos == #[trigger] draw_pos(s.regs[x as int], s.regs[y as int], xl, yl)
}

/// Whether one of the first `k` sprite cells is set and lands on a plane
/// cell that was already set in `s`.
spec fn collides_first(s: VmState, x: u8, y: u8, k: int) -> bool {
    exists|yl: int, xl: int|
        0 <= yl && 0 <= xl < 8 && 8 * yl + xl < k
            && sprite_bit(s.mem[s.ir + yl], xl as u8)
            && s.gfx[#[trigger] draw_pos(s.regs[x as int], s.regs[y as int], xl, yl)] == 1
}

/// Whether every set cell among the first `k` sprite cells lands on the
/// plane.
spec fn in_plane_first(s: VmState, x: u8, y: u8, k: int) -> bool {
    forall|yl: int, xl: int|
        0 <= yl && 0 <= xl < 8 && 8 * yl + xl < k
            && sprite_bit(s.mem[s.ir + yl], xl as u8)
            ==> #[trigger] draw_pos(s.regs[x as int], s.regs[y as int], xl, yl) < GFX_SIZE
}

/// Two distinct sprite cells land on distinct plane cells: the column
/// offsets stay below the row width, so equal positions force equal cells.
proof fn lemma_draw_pos_injective(vx: u8, vy: u8, x1: int, y1: int, x2: int, y2: int)
    requires
        0 <= x1 < 8,
        0 <= x2 < 8,
        draw_pos(vx, vy, x1, y1) == draw_pos(vx, vy, x2, y2),
    ensures
        x1 == x2,
        y1 == y2,
{
    assert((y1 - y2) * 64 == x2 - x1) by (nonlinear_arith)
        requires
            vx + x1 + (vy + y1) * 64 == vx + x2 + (vy + y2) * 64,
    ;
}

impl Chip8 {
    /// DXYN: XOR the N sprite rows at memory[I..] onto the plane at
    /// (V[x], V[y]), flat-indexed and unwrapped; VF reports whether any set
    /// sprite bit landed on an already-set pixel. A sprite row outside
    /// memory or a set bit off the plane is a bounds violation, found
    /// before anything is drawn.
    #[verifier::loop_isolation(false)]
    #[verifier::rlimit(60)]
    fn draw_sprite(&mut self, x: u8, y: u8, n: u8) -> (r: Result<(), VmError>)
        requires
            old(self)@.wf(),
            x < 16,
            y < 16,
            n < 16,
            old(self)@.pc < 4095,
        ensures
            final(self)@.wf(),
            draw_fails(old(self)@, x, y, n) ==> r == Err::<(), VmError>(VmError::OutOfBounds)
                && final(self)@ == old(self)@,
            !draw_fails(old(self)@, x, y, n) ==> r == Ok::<(), VmError>(())
                && final(self)@ == apply_instr(old(self)@, Instr::Draw { x, y, n }, 0),
    {
        let ghost s0 = old(self)@;
        let ghost vxg = s0.regs[x as int];
        let ghost vyg = s0.regs[y as int];
        let vx = self.vr.get(x as usize);
        let vy = self.vr.get(y as usize);
        let irn = self.ir as usize;
        let nn = n as usize;
        if nn > 0 && irn + nn > MEM_SIZE {
            return Err(VmError::OutOfBounds);
        }

        // First pass: nothing is drawn until every set bit is known to land
        // on the plane, so a failing draw leaves the plane untouched.
        let mut yl: usize = 0;
        while yl < nn
            invariant
                yl <= nn,
                self@ == s0,
                in_plane_first(s0, x, y, 8 * yl as int),
            decreases nn - yl,
        {
            let row = self.memory.get(irn + yl);
            let mut xl: usize = 0;
            while xl < 8
                invariant
                    xl <= 8,
                    self@ == s0,
                    in_plane_first(s0, x, y, 8 * yl as int + xl as int),
                decreases 8 - xl,
            {
                let bit = row & (0x80u8 >> (xl as u8)) != 0;
                if bit {
                    let pos = vx as usize + xl + (vy as usize + yl) * WIDTH;
                    if pos >= GFX_SIZE {
                        proof {
                            assert(sprite_bit(s0.mem[s0.ir + yl as int], xl as u8));
                            assert(draw_pos(vxg, vyg, xl as int, yl as int) >= GFX_SIZE);
                            assert(draw_fails(s0, x, y, n));
                        }
                        return Err(VmError::OutOfBounds);
                    }
                }
                proof {
                    assert(bit ==> draw_pos(vxg, vyg, xl as int, yl as int) < GFX_SIZE);
                    assert forall|yy: int, xx: int|
                        0 <= yy && 0 <= xx < 8 && 8 * yy + xx < 8 * yl as int + xl as int + 1
                            && sprite_bit(s0.mem[s0.ir + yy], xx as u8) implies #[trigger]
                        draw_pos(vxg, vyg, xx, yy) < GFX_SIZE by {
                        if 8 * yy + xx == 8 * yl as int + xl as int {
                            assert(yy == yl as int && xx == xl as int);
                        }
                    }
                }
                xl = xl + 1;
            }
            yl = yl + 1;
        }
        proof {
            assert(!draw_fails(s0, x, y, n)) by {
                if draw_fails(s0, x, y, n) {
                    assert(!(n > 0 && s0.ir + n > MEM_SIZE));
                    let (yy, xx): (int, int) = choose|yy: int, xx: int|
                        0 <= yy < n && 0 <= xx < 8
                            && sprite_bit(s0.mem[s0.ir + yy], xx as u8)
                            && #[trigger] draw_pos(vxg, vyg, xx, yy) >= GFX_SIZE as int;
                    assert(8 * yy + xx < 8 * n);
                    assert(draw_pos(vxg, vyg, xx, yy) < GFX_SIZE);
                }
            }
        }

        // Second pass: the XOR itself, one sprite cell at a time, with VF
        // latching the first collision.
        self.vr.set(15, 0u8);
        let mut yl: usize = 0;
        while yl < nn
            invariant
                yl <= nn,
                self@ == (VmState { gfx: self@.gfx, regs: self@.regs, ..s0 }),
                self@.regs.len() == NUM_REGS,
                forall|j: int| 0 <= j < NUM_REGS && j != 15 ==> self@.regs[j] == s0.regs[j],
                self@.regs[15] == (if collides_first(s0, x, y, 8 * yl as int) { 1u8 } else { 0u8 }),
                self@.gfx.len() == GFX_SIZE,
                forall|p: int| 0 <= p < GFX_SIZE ==> self@.gfx[p] == (
                    if hits_first(s0, x, y, 8 * yl as int, p) {
                        flip(s0.gfx[p])
                    } else {
                        s0.gfx[p]
                    }),
            decreases nn - yl,
        {
            let row = self.memory.get(irn + yl);
            let mut xl: usize = 0;
            while xl < 8
                invariant
                    xl <= 8,
                    self@ == (VmState { gfx: self@.gfx, regs: self@.regs, ..s0 }),
                    self@.regs.len() == NUM_REGS,
                    forall|j: int| 0 <= j < NUM_REGS && j != 15 ==> self@.regs[j] == s0.regs[j],
                    self@.regs[15] == (
                        if collides_first(s0, x, y, 8 * yl as int + xl as int) { 1u8 } else { 0u8 }),
                    self@.gfx.len() == GFX_SIZE,
                    forall|p: int| 0 <= p < GFX_SIZE ==> self@.gfx[p] == (
                        if hits_first(s0, x, y, 8 * yl as int + xl as int, p) {
                            flip(s0.gfx[p])
                        } else {
                            s0.gfx[p]
                        }),
                decreases 8 - xl,
            {
                let ghost k = 8 * yl as int + xl as int;
                let bit = row & (0x80u8 >> (xl as u8)) != 0;
                if bit {
                    let pos = vx as usize + xl + (vy as usize + yl) * WIDTH;
                    proof {
                        assert(sprite_bit(s0.mem[s0.ir + yl as int], xl as u8));
                        assert(draw_pos(vxg, vyg, xl as int, yl as int) < GFX_SIZE);
                        assert(pos < GFX_SIZE);
                        assert(!hits_first(s0, x, y, k, pos as int)) by {
                            if hits_first(s0, x, y, k, pos as int) {
                                let (yy, xx): (int, int) = choose|yy: int, xx: int|
                                    0 <= yy && 0 <= xx < 8 && 8 * yy + xx < k
                                        && sprite_bit(s0.mem[s0.ir + yy], xx as u8)
                                        && pos as int == #[trigger] draw_pos(vxg, vyg, xx, yy);
                                lemma_draw_pos_injective(vxg, vyg, xx, yy, xl as int, yl as int);
                            }
                        }
                    }
                    let cur = self.gfx.get(pos);
                    proof {
                        assert(cur == s0.gfx[pos as int]);
                        assert(cur == 0 || cur == 1);
                    }
                    if cur == 1 {
                        self.vr.set(15, 1u8);
                    }
                    self.gfx.set(pos, cur ^ 1);
                    proof {
                        assert(cur ^ 1 == (if cur == 1 { 0u8 } else { 1u8 })) by (bit_vector)
                            requires cur == 0 || cur == 1,
                        ;
                        assert(hits_first(s0, x, y, k + 1, pos as int));
                        assert(collides_first(s0, x, y, k) || cur == 1
                            ==> collides_first(s0, x, y, k + 1));
                        assert forall|p: int| 0 <= p < GFX_SIZE && p != pos as int implies
                            hits_first(s0, x, y, k + 1, p) == hits_first(s0, x, y, k, p) by {
                            if hits_first(s0, x, y, k + 1, p) {
                                let (yy, xx): (int, int) = choose|yy: int, xx: int|
                                    0 <= yy && 0 <= xx < 8 && 8 * yy + xx < k + 1
                                        && sprite_bit(s0.mem[s0.ir + yy], xx as u8)
                                        && p == #[trigger] draw_pos(vxg, vyg, xx, yy);
                                if 8 * yy + xx == k {
                                    assert(yy == yl as int && xx == xl as int);
                                    assert(p == pos as int);
                                }
                                assert(8 * yy + xx < k);
                            }
                        }
                        assert(!collides_first(s0, x, y, k + 1) ==> !(cur == 1)
                            && !collides_first(s0, x, y, k));
                        assert(collides_first(s0, x, y, k + 1) && !collides_first(s0, x, y, k)
                            && cur != 1 ==> false) by {
                            if collides_first(s0, x, y, k + 1) {
                                let (yy, xx): (int, int) = choose|yy: int, xx: int|
                                    0 <= yy && 0 <= xx < 8 && 8 * yy + xx < k + 1
                                        && sprite_bit(s0.mem[s0.ir + yy], xx as u8)
                                        && s0.gfx[#[trigger] draw_pos(vxg, vyg, xx, yy)] == 1;
                                if 8 * yy + xx == k {
                                    assert(yy == yl as int && xx == xl as int);
                                } else {
                                    assert(collides_first(s0, x, y, k));
                                }
                            }
                        }
                    }
                } else {
                    proof {
                        assert forall|p: int| 0 <= p < GFX_SIZE implies
                            hits_first(s0, x, y, k + 1, p) == hits_first(s0, x, y, k, p) by {
                            if hits_first(s0, x, y, k + 1, p) {
                                let (yy, xx): (int, int) = choose|yy: int, xx: int|
                                    0 <= yy && 0 <= xx < 8 && 8 * yy + xx < k + 1
                                        && sprite_bit(s0.mem[s0.ir + yy], xx as u8)
                                        && p == #[trigger] draw_pos(vxg, vyg, xx, yy);
                                if 8 * yy + xx == k {
                                    assert(yy == yl as int && xx == xl as int);
                                    assert(sprite_bit(s0.mem[s0.ir + yl as int], xl as u8));
                                }
                                assert(8 * yy + xx < k);
                            }
                        }
                        assert(collides_first(s0, x, y, k + 1) == collides_first(s0, x, y, k)) by {
                            if collides_first(s0, x, y, k + 1) {
                                let (yy, xx): (int, int) = choose|yy: int, xx: int|
                                    0 <= yy && 0 <= xx < 8 && 8 * yy + xx < k + 1
                                        && sprite_bit(s0.mem[s0.ir + yy], xx as u8)
                                        && s0.gfx[#[trigger] draw_pos(vxg, vyg, xx, yy)] == 1;
                                if 8 * yy + xx == k {
                                    assert(yy == yl as int && xx == xl as int);
                                    assert(sprite_bit(s0.mem[s0.ir + yl as int], xl as u8));
                                }
                                assert(8 * yy + xx < k);
                                assert(collides_first(s0, x, y, k));
                            }
                        }
                    }
                }
                xl = xl + 1;
            }
            yl = yl + 1;
        }
        self.draw_flag = true;
        self.pc = self.pc + 2;
        proof {
            let di = Instr::Draw { x, y, n };
            assert forall|p: int| 0 <= p < GFX_SIZE implies
                hits_first(s0, x, y, 8 * n, p) == draw_hits(s0, x, y, n, p) by {
                if hits_first(s0, x, y, 8 * n, p) {
                    let (yy, xx): (int, int) = choose|yy: int, xx: int|
                        0 <= yy && 0 <= xx < 8 && 8 * yy + xx < 8 * n
                            && sprite_bit(s0.mem[s0.ir + yy], xx as u8)
                            && p == #[trigger] draw_pos(vxg, vyg, xx, yy);
                    assert(yy < n);
                    assert(draw_hits(s0, x, y, n, p));
                }
                if draw_hits(s0, x, y, n, p) {
                    let (yy, xx): (int, int) = choose|yy: int, xx: int|
                        0 <= yy < n && 0 <= xx < 8
                            && sprite_bit(s0.mem[s0.ir + yy], xx as u8)
                            && p == #[trigger] draw_pos(vxg, vyg, xx, yy);
                    assert(8 * yy + xx < 8 * n);
                    assert(hits_first(s0, x, y, 8 * n, p));
                }
            }
            assert(collides_first(s0, x, y, 8 * n) == draw_collides(s0, x, y, n)) by {
                if collides_first(s0, x, y, 8 * n) {
                    let (yy, xx): (int, int) = choose|yy: int, xx: int|
                        0 <= yy && 0 <= xx < 8 && 8 * yy + xx < 8 * n
                            && sprite_bit(s0.mem[s0.ir + yy], xx as u8)
                            && s0.gfx[#[trigger] draw_pos(vxg, vyg, xx, yy)] == 1;
                    assert(yy < n);
                    assert(draw_collides(s0, x, y, n));
                }
                if draw_collides(s0, x, y, n) {
                    let (yy, xx): (int, int) = choose|yy: int, xx: int|
                        0 <= yy < n && 0 <= xx < 8
                            && sprite_bit(s0.mem[s0.ir + yy], xx as u8)
                            && s0.gfx[#[trigger] draw_pos(vxg, vyg, xx, yy)] == 1;
                    assert(8 * yy + xx < 8 * n);
                    assert(collides_first(s0, x, y, 8 * n));
                }
            }
            assert(self@.gfx =~= draw_gfx(s0, x, y, n));
            assert(self@.regs =~= apply_instr(s0, di, 0).regs);
            assert(self@ =~= apply_instr(s0, di, 0));
            assert(forall|p: int| 0 <= p < GFX_SIZE
                ==> self@.gfx[p] == 0 || self@.gfx[p] == 1);
            assert(self@.wf());
        }
        Ok(())
    }
}

} // verus!

verus! {

impl Chip8 {
    #[verifier::rlimit(100)]
    /// One full cycle: fetch the two opcode bytes at the program counter,
    /// decode them, run exactly one operation, then tick the timers. A
    /// fetch outside memory fails before anything changes; a bounds
    /// violation during an operation fails with only the opcode latch
    /// updated; an unrecognized opcode is ignored and only the timers move.
    pub fn emulate_cycle(&mut self) -> (r: Result<(), VmError>)
        requires
            old(self)@.wf(),
        ensures
            final(self)@.wf(),
            cycle_result(old(self)@, final(self)@, r),
    {
        let ghost pre = old(self)@;
        let pcu = self.pc as usize;
        if pcu + 1 >= MEM_SIZE {
            return Err(VmError::OutOfBounds);
        }
        let hi = self.memory.get(pcu);
        let lo = self.memory.get(pcu + 1);
        let op: u16 = ((hi as u16) << 8) | (lo as u16);
        proof {
            assert(((hi as u16) << 8) | (lo as u16) == hi as u16 * 0x100 + lo as u16)
                by (bit_vector);
        }
        self.opcode = op;
        let ghost s1 = self@;
        proof {
            assert(op == fetched(pre));
            assert(s1 =~= latched(pre));
            assert(s1.wf());
        }
        let i = decode(op);
        let ghost mut rnd_wit: u8 = 0;
        match i {
            Instr::Ret => {
                if self.sp == 0 {
                    return Err(VmError::OutOfBounds);
                }
                self.sp = self.sp - 1;
                let ra = self.stack.get(self.sp as usize);
                self.pc = ra + 2;
                proof {
                    assert(self@ =~= apply_instr(s1, i, 0));
                }
            },
            Instr::Jump { nnn } => {
                self.pc = nnn;
                proof {
                    assert(self@ =~= apply_instr(s1, i, 0));
                }
            },
            Instr::Call { nnn } => {
                if self.sp as usize >= STACK_SIZE {
                    return Err(VmError::OutOfBounds);
                }
                self.stack.set(self.sp as usize, self.pc);
                self.sp = self.sp + 1;
                self.pc = nnn;
                proof {
                    assert(nnn == crate::decode::op_nnn(op));
                    assert(self@ =~= apply_instr(s1, i, 0));
                }
            },
            Instr::SkipEq { x, nn } => {
                if self.vr.get(x as usize) == nn {
                    self.pc = self.pc + 4;
                } else {
                    self.pc = self.pc + 2;
                }
                proof {
                    assert(self@ =~= apply_instr(s1, i, 0));
                }
            },
            Instr::SkipNe { x, nn } => {
                if self.vr.get(x as usize) != nn {
                    self.pc = self.pc + 4;
                } else {
                    self.pc = self.pc + 2;
                }
                proof {
                    assert(self@ =~= apply_instr(s1, i, 0));
                }
            },
            Instr::SetReg { x, nn } => {
                self.vr.set(x as usize, nn);
                self.pc = self.pc + 2;
                proof {
                    assert(self@ =~= apply_instr(s1, i, 0));
                }
            },
            Instr::AddImm { x, nn } => {
                let vx = self.vr.get(x as usize);
                self.vr.set(x as usize, vx.wrapping_add(nn));
                self.pc = self.pc + 2;
                proof {
                    assert(vx.wrapping_add(nn) == ((vx + nn) % 256) as u8);
                    assert(self@ =~= apply_instr(s1, i, 0));
                }
            },
            Instr::CopyReg { .. } => {
                self.update_registers(i);
            },
            Instr::AndReg { .. } => {
                self.update_registers(i);
            },
            Instr::AddReg { .. } => {
                self.update_registers(i);
            },
            Instr::SubReg { .. } => {
                self.update_registers(i);
            },
            Instr::SetIndex { nnn } => {
                self.ir = nnn;
                self.pc = self.pc + 2;
                proof {
                    assert(self@ =~= apply_instr(s1, i, 0));
                }
            },
            Instr::RandMask { x, nn } => {
                let rb = random_byte();
                self.vr.set(x as usize, nn & rb);
                self.pc = self.pc + 2;
                proof {
                    rnd_wit = rb;
                    assert(self@ =~= apply_instr(s1, i, rb));
                }
            },
            Instr::Draw { x, y, n } => {
                match self.draw_sprite(x, y, n) {
                    Ok(()) => {},
                    Err(e) => {
                        return Err(e);
                    },
                }
            },
            Instr::SkipKey { .. } => {
                match self.maybe_skip_next(i) {
                    Ok(()) => {},
                    Err(e) => {
                        return Err(e);
                    },
                }
            },
            Instr::SkipNoKey { .. } => {
                match self.maybe_skip_next(i) {
                    Ok(()) => {},
                    Err(e) => {
                        return Err(e);
                    },
                }
            },
            Instr::GetDelay { x } => {
                let d = self.delay_timer;
                self.vr.set(x as usize, d);
                self.pc = self.pc + 2;
                proof {
                    assert(self@ =~= apply_instr(s1, i, 0));
                }
            },
            Instr::SetDelay { x } => {
                self.delay_timer = self.vr.get(x as usize);
                self.pc = self.pc + 2;
                proof {
                    assert(self@ =~= apply_instr(s1, i, 0));
                }
            },
            Instr::FontAddr { x } => {
                let vx = self.vr.get(x as usize);
                self.ir = (vx as u16) * 5;
                self.pc = self.pc + 2;
                proof {
                    assert(self@ =~= apply_instr(s1, i, 0));
                }
            },
            Instr::StoreBcd { x } => {
                match self.store_bcd(x) {
                    Ok(()) => {},
                    Err(e) => {
                        return Err(e);
                    },
                }
            },
            Instr::LoadRegs { x } => {
                match self.load_regs(x) {
                    Ok(()) => {},
                    Err(e) => {
                        return Err(e);
                    },
                }
            },
            Instr::Unknown => {
                proof {
                    assert(self@ =~= apply_instr(s1, i, 0));
                }
            },
        }
        proof {
            assert(self@ == apply_instr(s1, i, rnd_wit));
            assert(self@.wf());
        }
        self.update_timers();
        proof {
            assert(final(self)@ == tick(apply_instr(s1, i, rnd_wit)));
        }
        Ok(())
    }
}

} // verus!
