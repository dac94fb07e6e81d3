use vstd::prelude::*;
use crate::VmError;
use crate::decode::{Instr, decode_spec};
use crate::state::{
    VmState, fetch_ok, fetched, latched, sprite_bit, draw_pos, draw_hits, draw_fails,
    draw_collides, draw_gfx, flip, instr_fails, apply_instr, tick, cycle_result,
    MEM_SIZE, GFX_SIZE, STACK_SIZE,
};

verus! {

/// Law: a load followed by a no-op add leaves the loaded value in place.
/// When the two opcodes at the program counter are 6XNN and 7X00, two
/// cycles succeed and end with VX == NN, whatever the rest of the state.
pub proof fn lemma_load_then_add_zero(
    pre: VmState,
    mid: VmState,
    post: VmState,
    r1: Result<(), VmError>,
    r2: Result<(), VmError>,
    x: u8,
    nn: u8,
)
    requires
        pre.wf(),
        x < 16,
        pre.pc + 3 < MEM_SIZE,
        pre.mem[pre.pc as int] == 0x60 + x,
        pre.mem[pre.pc as int + 1] == nn,
        pre.mem[pre.pc as int + 2] == 0x70 + x,
        pre.mem[pre.pc as int + 3] == 0,
        cycle_result(pre, mid, r1),
        cycle_result(mid, post, r2),
    ensures
        r1 == Ok::<(), VmError>(()),
        r2 == Ok::<(), VmError>(()),
        post.regs[x as int] == nn,
{
    let op1 = fetched(pre);
    assert(op1 == 0x6000 + x * 0x100 + nn);
    assert(op1 / 0x1000 == 6 && (op1 / 0x100) % 16 == x && op1 % 0x100 == nn) by (bit_vector)
        requires
            op1 == 0x6000 + x * 0x100 + nn,
            x < 16,
    ;
    let i1 = decode_spec(op1);
    assert(i1 == (Instr::SetReg { x, nn }));
    let s1 = latched(pre);
    assert(!instr_fails(s1, i1));
    let rnd1 = choose|rnd: u8| mid == tick(apply_instr(s1, i1, rnd));
    assert(mid == tick(apply_instr(s1, i1, rnd1)));
    assert(mid.regs[x as int] == nn);
    assert(mid.pc == pre.pc + 2);
    assert(mid.mem == pre.mem);

    let op2 = fetched(mid);
    assert(op2 == 0x7000 + x * 0x100);
    assert(op2 / 0x1000 == 7 && (op2 / 0x100) % 16 == x && op2 % 0x100 == 0) by (bit_vector)
        requires
            op2 == 0x7000 + x * 0x100,
            x < 16,
    ;
    let i2 = decode_spec(op2);
    assert(i2 == (Instr::AddImm { x, nn: 0 }));
    let s2 = latched(mid);
    assert(!instr_fails(s2, i2));
    let rnd2 = choose|rnd: u8| post == tick(apply_instr(s2, i2, rnd));
    assert(post == tick(apply_instr(s2, i2, rnd2)));
    assert(post.regs[x as int] == (nn + 0) % 256);
}

/// Law: 8XY4 writes the carry to VF before the add, then the wrapped sum
/// to VX. For registers other than VF itself: VF becomes 1 exactly when
/// VX + VY exceeds 255, and VX becomes the sum modulo 256.
pub proof fn lemma_add_carry(s: VmState, x: u8, y: u8, op: u16, rnd: u8)
    requires
        s.wf(),
        x < 15,
        y < 15,
        op == 0x8004 + x * 0x100 + y * 0x10,
    ensures
        decode_spec(op) == (Instr::AddReg { x, y }),
        apply_instr(s, Instr::AddReg { x, y }, rnd).regs[15] == (
            if s.regs[x as int] + s.regs[y as int] > 255 { 1u8 } else { 0u8 }),
        apply_instr(s, Instr::AddReg { x, y }, rnd).regs[x as int] == (
            s.regs[x as int] + s.regs[y as int]) % 256,
{
    assert(op / 0x1000 == 8 && (op / 0x100) % 16 == x && (op / 0x10) % 16 == y && op % 16 == 4)
        by (bit_vector)
        requires
            op == 0x8004 + x * 0x100 + y * 0x10,
            x < 15,
            y < 15,
    ;
}

/// Law: a call pushes the call-site program counter and jumps; the
/// matching return restores that counter plus two, the instruction after
/// the call. Timer ticks in between do not disturb it.
pub proof fn lemma_call_then_ret(s: VmState, nnn: u16, rnd1: u8, rnd2: u8)
    requires
        s.wf(),
        s.sp < STACK_SIZE,
        s.pc + 1 < MEM_SIZE,
    ensures
        !instr_fails(s, Instr::Call { nnn }),
        tick(apply_instr(s, Instr::Call { nnn }, rnd1)).pc == nnn,
        !instr_fails(tick(apply_instr(s, Instr::Call { nnn }, rnd1)), Instr::Ret),
        tick(apply_instr(tick(apply_instr(s, Instr::Call { nnn }, rnd1)), Instr::Ret, rnd2)).pc
            == s.pc + 2,
{
}

/// Law: a call saves the call-site program counter in the cell the stack
/// pointer named, and whatever ran in between, a return that still finds
/// that frame — one level deeper, the saved counter untouched — resumes at
/// the call site plus two.
pub proof fn lemma_ret_restores_saved_pc(
    call_site: VmState,
    later: VmState,
    nnn: u16,
    rnd1: u8,
    rnd2: u8,
)
    requires
        call_site.wf(),
        call_site.sp < STACK_SIZE,
        call_site.pc + 1 < MEM_SIZE,
        later.sp == call_site.sp + 1,
        later.stack.len() == STACK_SIZE,
        later.stack[call_site.sp as int] == apply_instr(call_site, Instr::Call { nnn },
            rnd1).stack[call_site.sp as int],
    ensures
        apply_instr(call_site, Instr::Call { nnn }, rnd1).stack[call_site.sp as int]
            == call_site.pc,
        !instr_fails(later, Instr::Ret),
        tick(apply_instr(later, Instr::Ret, rnd2)).pc == call_site.pc + 2,
{
}

/// Law: with all sixteen stack cells in use, a further call is a bounds
/// violation: the cycle that meets it reports the error, and nothing but
/// the opcode latch changes — no memory, register or stack cell moves.
pub proof fn lemma_call_overflow(pre: VmState, post: VmState, r: Result<(), VmError>)
    requires
        pre.wf(),
        pre.sp == STACK_SIZE,
        fetch_ok(pre),
        decode_spec(fetched(pre)) matches Instr::Call { .. },
        cycle_result(pre, post, r),
    ensures
        r == Err::<(), VmError>(VmError::OutOfBounds),
        post == latched(pre),
        post.mem == pre.mem,
        post.regs == pre.regs,
        post.stack == pre.stack,
        post.pc == pre.pc,
{
}

/// Law: drawing the same sprite twice at the same position restores the
/// plane — the XOR is its own inverse — and the second draw reports a
/// collision exactly when the first draw set some pixel that was clear
/// before. Needs x and y below 15: the first draw writes VF, so a sprite
/// positioned by VF would move between the draws.
pub proof fn lemma_draw_twice(s: VmState, x: u8, y: u8, n: u8, rnd1: u8, rnd2: u8)
    requires
        s.wf(),
        x < 15,
        y < 15,
        n < 16,
        s.pc + 1 < MEM_SIZE,
        !draw_fails(s, x, y, n),
    ensures
        !instr_fails(tick(apply_instr(s, Instr::Draw { x, y, n }, rnd1)), Instr::Draw { x, y, n }),
        tick(apply_instr(tick(apply_instr(s, Instr::Draw { x, y, n }, rnd1)),
            Instr::Draw { x, y, n }, rnd2)).gfx == s.gfx,
        tick(apply_instr(tick(apply_instr(s, Instr::Draw { x, y, n }, rnd1)),
            Instr::Draw { x, y, n }, rnd2)).regs[15] == 1 <==> (exists|p: int|
            0 <= p < GFX_SIZE && #[trigger] draw_hits(s, x, y, n, p) && s.gfx[p] == 0),
{
    let di = Instr::Draw { x, y, n };
    let s1 = tick(apply_instr(s, di, rnd1));
    assert(s1.mem == s.mem && s1.ir == s.ir);
    assert(s1.regs[x as int] == s.regs[x as int] && s1.regs[y as int] == s.regs[y as int]);
    assert(s1.gfx == draw_gfx(s, x, y, n));

    // The two draws touch the same cells: sprite rows, I and the two
    // position registers are unchanged by the first draw.
    assert forall|p: int| draw_hits(s1, x, y, n, p) == draw_hits(s, x, y, n, p) by {
        if draw_hits(s1, x, y, n, p) {
            let (yy, xx): (int, int) = choose|yy: int, xx: int|
                0 <= yy < n && 0 <= xx < 8
                    && sprite_bit(s1.mem[s1.ir + yy], xx as u8)
                    && p == #[trigger] draw_pos(s1.regs[x as int], s1.regs[y as int], xx, yy);
            assert(sprite_bit(s.mem[s.ir + yy], xx as u8));
            assert(p == draw_pos(s.regs[x as int], s.regs[y as int], xx, yy));
            assert(draw_hits(s, x, y, n, p));
        }
        if draw_hits(s, x, y, n, p) {
            let (yy, xx): (int, int) = choose|yy: int, xx: int|
                0 <= yy < n && 0 <= xx < 8
                    && sprite_bit(s.mem[s.ir + yy], xx as u8)
                    && p == #[trigger] draw_pos(s.regs[x as int], s.regs[y as int], xx, yy);
            assert(sprite_bit(s1.mem[s1.ir + yy], xx as u8));
            assert(p == draw_pos(s1.regs[x as int], s1.regs[y as int], xx, yy));
            assert(draw_hits(s1, x, y, n, p));
        }
    }

    // The second draw cannot fail: same rows, same positions.
    assert(!draw_fails(s1, x, y, n)) by {
        if draw_fails(s1, x, y, n) {
            if exists|yy: int, xx: int|
                0 <= yy < n && 0 <= xx < 8
                    && sprite_bit(s1.mem[s1.ir + yy], xx as u8)
                    && #[trigger] draw_pos(s1.regs[x as int], s1.regs[y as int], xx, yy)
                    >= GFX_SIZE {
                let (yy, xx): (int, int) = choose|yy: int, xx: int|
                    0 <= yy < n && 0 <= xx < 8
                        && sprite_bit(s1.mem[s1.ir + yy], xx as u8)
                        && #[trigger] draw_pos(s1.regs[x as int], s1.regs[y as int], xx, yy)
                        >= GFX_SIZE;
                assert(sprite_bit(s.mem[s.ir + yy], xx as u8));
                assert(draw_pos(s.regs[x as int], s.regs[y as int], xx, yy) >= GFX_SIZE);
                assert(draw_fails(s, x, y, n));
            }
        }
    }

    let s2 = tick(apply_instr(s1, di, rnd2));
    assert(s2.gfx == draw_gfx(s1, x, y, n));

    // Every touched cell is flipped twice, every other cell never: the
    // plane comes back.
    assert forall|p: int| 0 <= p < GFX_SIZE implies s2.gfx[p] == s.gfx[p] by {
        assert(s.gfx[p] == 0 || s.gfx[p] == 1);
        if draw_hits(s, x, y, n, p) {
            assert(s1.gfx[p] == flip(s.gfx[p]));
            assert(s2.gfx[p] == flip(s1.gfx[p]));
        } else {
            assert(s1.gfx[p] == s.gfx[p]);
            assert(s2.gfx[p] == s1.gfx[p]);
        }
    }
    assert(s2.gfx =~= s.gfx);

    // The second draw collides exactly where the first one drew onto a
    // clear pixel: the first draw set that pixel.
    assert(s2.regs[15] == (if draw_collides(s1, x, y, n) { 1u8 } else { 0u8 }));
    assert(draw_collides(s1, x, y, n) <==> (exists|p: int|
        0 <= p < GFX_SIZE && #[trigger] draw_hits(s, x, y, n, p) && s.gfx[p] == 0)) by {
        if draw_collides(s1, x, y, n) {
            let (yy, xx): (int, int) = choose|yy: int, xx: int|
                0 <= yy < n && 0 <= xx < 8
                    && sprite_bit(s1.mem[s1.ir + yy], xx as u8)
                    && s1.gfx[#[trigger] draw_pos(s1.regs[x as int], s1.regs[y as int], xx, yy)]
                    == 1;
            let p = draw_pos(s.regs[x as int], s.regs[y as int], xx, yy);
            assert(sprite_bit(s.mem[s.ir + yy], xx as u8));
            assert(draw_hits(s, x, y, n, p));
            assert(0 <= p < GFX_SIZE);
            assert(s1.gfx[p] == flip(s.gfx[p]));
            assert(s.gfx[p] == 0);
        }
        if exists|p: int| 0 <= p < GFX_SIZE && #[trigger] draw_hits(s, x, y, n, p)
            && s.gfx[p] == 0 {
            let p = choose|p: int|
                0 <= p < GFX_SIZE && #[trigger] draw_hits(s, x, y, n, p) && s.gfx[p] == 0;
            let (yy, xx): (int, int) = choose|yy: int, xx: int|
                0 <= yy < n && 0 <= xx < 8
                    && sprite_bit(s.mem[s.ir + yy], xx as u8)
                    && p == #[trigger] draw_pos(s.regs[x as int], s.regs[y as int], xx, yy);
            assert(s1.gfx[p] == flip(s.gfx[p]));
            assert(s1.gfx[p] == 1);
            assert(sprite_bit(s1.mem[s1.ir + yy], xx as u8));
            assert(s1.gfx[#[trigger] draw_pos(s1.regs[x as int], s1.regs[y as int], xx, yy)]
                == 1);
            assert(draw_collides(s1, x, y, n));
        }
    }
}

} // verus!
