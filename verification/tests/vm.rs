use chip8::chip8::Chip8;
use chip8::decode::{decode, Instr};
use chip8::buffer::Buffer;
use chip8::VmError;
use chip8::keymap::key_to_code;

fn fresh_with(program: &[u8]) -> Chip8 {
    let mut vm = Chip8::new();
    vm.load_game(program).expect("program fits");
    vm
}

fn run(program: &[u8], cycles: usize) -> Chip8 {
    let mut vm = fresh_with(program);
    for _ in 0..cycles {
        vm.emulate_cycle().expect("cycle succeeds");
    }
    vm
}

#[test]
fn buffer_starts_zeroed() {
    let b: Buffer<u8> = Buffer::new(4, 0);
    assert_eq!(b.len(), 4);
    for i in 0..4 {
        assert_eq!(b.read(i), Ok(0));
    }
}

#[test]
fn buffer_read_write_bounds() {
    let mut b: Buffer<u16> = Buffer::new(3, 0);
    assert_eq!(b.write(1, 0x1234), Ok(()));
    assert_eq!(b.read(1), Ok(0x1234));
    assert_eq!(b.read(3), Err(VmError::OutOfBounds));
    assert_eq!(b.write(3, 7), Err(VmError::OutOfBounds));
    assert_eq!(b.read(1), Ok(0x1234));
}

#[test]
fn buffer_slice_from_tail() {
    let mut b: Buffer<u8> = Buffer::new(4, 0);
    b.write(2, 9).unwrap();
    b.write(3, 7).unwrap();
    assert_eq!(b.slice_from(2).unwrap(), &[9, 7]);
    assert_eq!(b.slice_from(4).unwrap(), &[] as &[u8]);
    assert!(b.slice_from(5).is_err());
}

#[test]
fn new_machine_reset_state() {
    let vm = Chip8::new();
    assert_eq!(vm.program_counter(), 0x200);
    assert_eq!(vm.stack_pointer(), 0);
    assert!(!vm.is_draw_flag());
    // font glyphs sit at the bottom of memory
    assert_eq!(vm.memory_at(0), Ok(0xF0));
    assert_eq!(vm.memory_at(79), Ok(0x80));
    assert_eq!(vm.memory_at(80), Ok(0));
    assert_eq!(vm.memory_at(0x200), Ok(0));
    for x in 0..16 {
        assert_eq!(vm.register(x), Ok(0));
    }
}

#[test]
fn load_then_add_zero_keeps_value() {
    // 6A42: VA = 0x42; 7A00: VA += 0
    let vm = run(&[0x6A, 0x42, 0x7A, 0x00], 2);
    assert_eq!(vm.register(0xA), Ok(0x42));
    assert_eq!(vm.program_counter(), 0x204);
}

#[test]
fn add_with_carry_wraps() {
    // V0 = 200, V1 = 100, V0 += V1
    let vm = run(&[0x60, 0xC8, 0x61, 0x64, 0x80, 0x14], 3);
    assert_eq!(vm.register(0), Ok(44));
    assert_eq!(vm.register(0xF), Ok(1));
}

#[test]
fn add_without_carry() {
    let vm = run(&[0x60, 0x05, 0x61, 0x03, 0x80, 0x14], 3);
    assert_eq!(vm.register(0), Ok(8));
    assert_eq!(vm.register(0xF), Ok(0));
}

#[test]
fn call_then_ret_resumes_after_call() {
    // 2204: call 0x204; at 0x204: 00EE returns
    let vm = run(&[0x22, 0x04, 0x00, 0x00, 0x00, 0xEE], 2);
    assert_eq!(vm.program_counter(), 0x202);
    assert_eq!(vm.stack_pointer(), 0);
}

#[test]
fn seventeenth_call_fails_explicitly() {
    // 2200: call 0x200 forever; each call pushes one return address
    let mut vm = fresh_with(&[0x22, 0x00]);
    for _ in 0..16 {
        vm.emulate_cycle().expect("room on the stack");
    }
    assert_eq!(vm.stack_pointer(), 16);
    assert_eq!(vm.emulate_cycle(), Err(VmError::OutOfBounds));
    // nothing was corrupted: the machine still sits at the call
    assert_eq!(vm.stack_pointer(), 16);
    assert_eq!(vm.program_counter(), 0x200);
    assert_eq!(vm.memory_at(0x200), Ok(0x22));
}

#[test]
fn draw_twice_restores_plane() {
    // V0 = 0, V1 = 0, I = 0 (glyph for 0), draw 5 rows twice
    let program = [0x60, 0x00, 0x61, 0x00, 0xA0, 0x00, 0xD0, 0x15, 0xD0, 0x15];
    let mut vm = fresh_with(&program);
    for _ in 0..4 {
        vm.emulate_cycle().unwrap();
    }
    // glyph 0 row 0 is 0xF0: leftmost four pixels set
    assert_eq!(vm.is_set(0, 0), Ok(true));
    assert_eq!(vm.is_set(0, 3), Ok(true));
    assert_eq!(vm.is_set(0, 4), Ok(false));
    assert_eq!(vm.is_set(1, 0), Ok(true));
    assert_eq!(vm.is_set(1, 1), Ok(false));
    assert_eq!(vm.register(0xF), Ok(0));
    assert!(vm.is_draw_flag());
    vm.clear_draw_flag();
    assert!(!vm.is_draw_flag());

    // the second identical draw self-collides and clears every pixel
    vm.emulate_cycle().unwrap();
    assert_eq!(vm.register(0xF), Ok(1));
    assert!(vm.is_draw_flag());
    for row in 0..32 {
        for col in 0..64 {
            assert_eq!(vm.is_set(row, col), Ok(false));
        }
    }
}

#[test]
fn bcd_of_156() {
    // V0 = 156, I = 0x300, FX33
    let vm = run(&[0x60, 0x9C, 0xA3, 0x00, 0xF0, 0x33], 3);
    assert_eq!(vm.memory_at(0x300), Ok(1));
    assert_eq!(vm.memory_at(0x301), Ok(5));
    assert_eq!(vm.memory_at(0x302), Ok(6));
}

#[test]
fn end_to_end_add_then_unknown() {
    let program = [0x60, 0x05, 0x61, 0x03, 0x80, 0x14, 0x00, 0x00];
    let mut vm = fresh_with(&program);
    for _ in 0..3 {
        vm.emulate_cycle().unwrap();
    }
    assert_eq!(vm.register(0), Ok(8));
    assert_eq!(vm.register(0xF), Ok(0));
    assert_eq!(vm.program_counter(), 0x206);
    // the fourth opcode 0x0000 is unrecognized: ignored, nothing moves
    assert_eq!(vm.emulate_cycle(), Ok(()));
    assert_eq!(vm.register(0), Ok(8));
    assert_eq!(vm.register(1), Ok(3));
    assert_eq!(vm.program_counter(), 0x206);
    assert_eq!(vm.stack_pointer(), 0);
}

#[test]
fn oversized_program_is_refused() {
    let mut vm = Chip8::new();
    let too_big = vec![0xAB_u8; 4096 - 512 + 1];
    assert_eq!(vm.load_game(&too_big), Err(VmError::IOError));
    // the machine is untouched
    assert_eq!(vm.program_counter(), 0x200);
    assert_eq!(vm.memory_at(0x200), Ok(0));
    assert_eq!(vm.memory_at(4095), Ok(0));

    let just_fits = vec![0xAB_u8; 4096 - 512];
    assert_eq!(vm.load_game(&just_fits), Ok(()));
    assert_eq!(vm.memory_at(0x200), Ok(0xAB));
    assert_eq!(vm.memory_at(4095), Ok(0xAB));
    assert_eq!(vm.memory_at(0x1FF), Ok(0));
}

#[test]
fn absolute_jump() {
    let vm = run(&[0x12, 0x08], 1);
    assert_eq!(vm.program_counter(), 0x208);
}

#[test]
fn skip_when_equal() {
    let vm = run(&[0x60, 0x07, 0x30, 0x07], 2);
    assert_eq!(vm.program_counter(), 0x206);
    let vm = run(&[0x60, 0x07, 0x30, 0x08], 2);
    assert_eq!(vm.program_counter(), 0x204);
}

#[test]
fn skip_when_not_equal() {
    let vm = run(&[0x60, 0x07, 0x40, 0x07], 2);
    assert_eq!(vm.program_counter(), 0x204);
    let vm = run(&[0x60, 0x07, 0x40, 0x08], 2);
    assert_eq!(vm.program_counter(), 0x206);
}

#[test]
fn copy_and_mask_registers() {
    let vm = run(&[0x61, 0x2A, 0x80, 0x10], 2);
    assert_eq!(vm.register(0), Ok(0x2A));
    let vm = run(&[0x60, 0x0C, 0x61, 0x0A, 0x80, 0x12], 3);
    assert_eq!(vm.register(0), Ok(0x08));
}

#[test]
fn subtract_with_borrow_flag() {
    // VY > VX: borrow, VF = 0, difference wraps
    let vm = run(&[0x60, 0x05, 0x61, 0x0A, 0x80, 0x15], 3);
    assert_eq!(vm.register(0xF), Ok(0));
    assert_eq!(vm.register(0), Ok(251));
    // no borrow: VF = 1
    let vm = run(&[0x60, 0x0A, 0x61, 0x05, 0x80, 0x15], 3);
    assert_eq!(vm.register(0xF), Ok(1));
    assert_eq!(vm.register(0), Ok(5));
}

#[test]
fn font_address_and_bcd() {
    // V0 = 2, I = glyph address 10, V0 = 7, FX33 writes 0,0,7 at I
    let vm = run(&[0x60, 0x02, 0xF0, 0x29, 0x60, 0x07, 0xF0, 0x33], 4);
    assert_eq!(vm.memory_at(10), Ok(0));
    assert_eq!(vm.memory_at(11), Ok(0));
    assert_eq!(vm.memory_at(12), Ok(7));
}

#[test]
fn delay_timer_counts_down() {
    // V0 = 5; delay = V0; V1 = delay
    let vm = run(&[0x60, 0x05, 0xF0, 0x15, 0xF1, 0x07], 3);
    // the delay timer ticked once after being set, so V1 reads 4
    assert_eq!(vm.register(1), Ok(4));
}

#[test]
fn key_state_drives_skips() {
    // pressed key: EX9E skips
    let mut vm = fresh_with(&[0x63, 0x03, 0xE3, 0x9E]);
    vm.set_keys(3, true).unwrap();
    vm.emulate_cycle().unwrap();
    vm.emulate_cycle().unwrap();
    assert_eq!(vm.program_counter(), 0x206);

    // released key: EXA1 skips
    let mut vm = fresh_with(&[0x63, 0x03, 0xE3, 0xA1]);
    vm.set_keys(3, true).unwrap();
    vm.set_keys(3, false).unwrap();
    vm.emulate_cycle().unwrap();
    vm.emulate_cycle().unwrap();
    assert_eq!(vm.program_counter(), 0x206);

    assert_eq!(vm.set_keys(16, true), Err(VmError::OutOfBounds));
}

#[test]
fn random_mask_of_zero_is_zero() {
    // CX00 masks the random byte with 0
    let vm = run(&[0x60, 0x55, 0xC0, 0x00], 2);
    assert_eq!(vm.register(0), Ok(0));
    // CX0F keeps only the low nibble
    let vm = run(&[0xC0, 0x0F], 1);
    assert!(vm.register(0).unwrap() <= 0x0F);
}

#[test]
fn load_registers_from_memory() {
    // I = 0x200; F265 fills V0..V2 from the program bytes themselves
    let vm = run(&[0xA2, 0x00, 0xF2, 0x65], 2);
    assert_eq!(vm.register(0), Ok(0xA2));
    assert_eq!(vm.register(1), Ok(0x00));
    assert_eq!(vm.register(2), Ok(0xF2));
}

#[test]
fn fetch_past_memory_fails() {
    let mut vm = fresh_with(&[0x1F, 0xFF]);
    vm.emulate_cycle().unwrap();
    assert_eq!(vm.program_counter(), 0xFFF);
    assert_eq!(vm.emulate_cycle(), Err(VmError::OutOfBounds));
    assert_eq!(vm.program_counter(), 0xFFF);
}

#[test]
fn draw_off_plane_fails_before_drawing() {
    // V1 = 31 (bottom row), two sprite rows: the second lands off the plane
    let program = [0x60, 0x00, 0x61, 0x1F, 0xA0, 0x00, 0xD0, 0x12];
    let mut vm = fresh_with(&program);
    for _ in 0..3 {
        vm.emulate_cycle().unwrap();
    }
    assert_eq!(vm.emulate_cycle(), Err(VmError::OutOfBounds));
    // nothing was drawn, not even the first row
    assert_eq!(vm.is_set(31, 0), Ok(false));
    assert!(!vm.is_draw_flag());
}

#[test]
fn bcd_past_memory_fails() {
    let vm_result = {
        let mut vm = fresh_with(&[0xAF, 0xFE, 0xF0, 0x33]);
        vm.emulate_cycle().unwrap();
        vm.emulate_cycle()
    };
    assert_eq!(vm_result, Err(VmError::OutOfBounds));
}

#[test]
fn load_registers_past_memory_fails() {
    let mut vm = fresh_with(&[0xAF, 0xFF, 0xF1, 0x65]);
    vm.emulate_cycle().unwrap();
    assert_eq!(vm.emulate_cycle(), Err(VmError::OutOfBounds));
}

#[test]
fn unknown_opcode_keeps_pc() {
    // 8XY1 is not in the table: the cycle is a no-op besides the timers
    let mut vm = fresh_with(&[0x80, 0x11]);
    assert_eq!(vm.emulate_cycle(), Ok(()));
    assert_eq!(vm.program_counter(), 0x200);
}

#[test]
fn pixel_query_bounds() {
    let vm = Chip8::new();
    assert_eq!(vm.is_set(0, 0), Ok(false));
    assert_eq!(vm.is_set(31, 63), Ok(false));
    assert_eq!(vm.is_set(32, 0), Err(VmError::OutOfBounds));
    assert_eq!(vm.is_set(0, 64), Err(VmError::OutOfBounds));
    assert_eq!(vm.register(16), Err(VmError::OutOfBounds));
    assert_eq!(vm.memory_at(4096), Err(VmError::OutOfBounds));
}

#[test]
fn decoder_table() {
    assert_eq!(decode(0x00EE), Instr::Ret);
    assert_eq!(decode(0x1234), Instr::Jump { nnn: 0x234 });
    assert_eq!(decode(0x2ABC), Instr::Call { nnn: 0xABC });
    assert_eq!(decode(0x3A55), Instr::SkipEq { x: 0xA, nn: 0x55 });
    assert_eq!(decode(0x4A55), Instr::SkipNe { x: 0xA, nn: 0x55 });
    assert_eq!(decode(0x6A55), Instr::SetReg { x: 0xA, nn: 0x55 });
    assert_eq!(decode(0x7A55), Instr::AddImm { x: 0xA, nn: 0x55 });
    assert_eq!(decode(0x8AB0), Instr::CopyReg { x: 0xA, y: 0xB });
    assert_eq!(decode(0x8AB2), Instr::AndReg { x: 0xA, y: 0xB });
    assert_eq!(decode(0x8AB4), Instr::AddReg { x: 0xA, y: 0xB });
    assert_eq!(decode(0x8AB5), Instr::SubReg { x: 0xA, y: 0xB });
    assert_eq!(decode(0xA123), Instr::SetIndex { nnn: 0x123 });
    assert_eq!(decode(0xC477), Instr::RandMask { x: 4, nn: 0x77 });
    assert_eq!(decode(0xD125), Instr::Draw { x: 1, y: 2, n: 5 });
    assert_eq!(decode(0xE39E), Instr::SkipKey { x: 3 });
    assert_eq!(decode(0xE3A1), Instr::SkipNoKey { x: 3 });
    assert_eq!(decode(0xF307), Instr::GetDelay { x: 3 });
    assert_eq!(decode(0xF315), Instr::SetDelay { x: 3 });
    assert_eq!(decode(0xF329), Instr::FontAddr { x: 3 });
    assert_eq!(decode(0xF333), Instr::StoreBcd { x: 3 });
    assert_eq!(decode(0xF365), Instr::LoadRegs { x: 3 });
    // outside the classic table
    assert_eq!(decode(0x5120), Instr::Unknown);
    assert_eq!(decode(0x8AB1), Instr::Unknown);
    assert_eq!(decode(0x8AB7), Instr::Unknown);
    assert_eq!(decode(0x9120), Instr::Unknown);
    assert_eq!(decode(0xB123), Instr::Unknown);
    assert_eq!(decode(0xE3AA), Instr::Unknown);
    assert_eq!(decode(0xF318), Instr::Unknown);
    assert_eq!(decode(0x0000), Instr::Unknown);
}

#[test]
fn keyboard_layout_maps_the_pad() {
    assert_eq!(key_to_code('1'), Some(0x1));
    assert_eq!(key_to_code('4'), Some(0xC));
    assert_eq!(key_to_code('q'), Some(0x4));
    assert_eq!(key_to_code('r'), Some(0xD));
    assert_eq!(key_to_code('a'), Some(0x7));
    assert_eq!(key_to_code('f'), Some(0xE));
    assert_eq!(key_to_code('z'), Some(0xA));
    assert_eq!(key_to_code('x'), Some(0x0));
    assert_eq!(key_to_code('c'), Some(0xB));
    assert_eq!(key_to_code('v'), Some(0xF));
    assert_eq!(key_to_code('g'), None);
    assert_eq!(key_to_code('5'), None);
}
