use vstd::prelude::*;

verus! {

/// A decoded instruction: the family and its operands, extracted once from
/// the 16-bit opcode. `x` and `y` are register selectors in [0, 16),
/// `nn` an 8-bit immediate, `nnn` a 12-bit address, `n` a 4-bit row count.
#[derive(Clone, Copy, Debug, PartialEq, Eq, Structural)]
pub enum Instr {
    /// 00EE: pop the return address into the program counter.
    Ret,
    /// 1NNN: absolute jump.
    Jump { nnn: u16 },
    /// 2NNN: push the program counter, then jump.
    Call { nnn: u16 },
    /// 3XNN: skip the next instruction when VX == NN.
    SkipEq { x: u8, nn: u8 },
    /// 4XNN: skip the next instruction when VX != NN.
    SkipNe { x: u8, nn: u8 },
    /// 6XNN: VX = NN.
    SetReg { x: u8, nn: u8 },
    /// 7XNN: VX = VX + NN, wrapping.
    AddImm { x: u8, nn: u8 },
    /// 8XY0: VX = VY.
    CopyReg { x: u8, y: u8 },
    /// 8XY2: VX = VX AND VY.
    AndReg { x: u8, y: u8 },
    /// 8XY4: VX = VX + VY wrapping, VF = carry.
    AddReg { x: u8, y: u8 },
    /// 8XY5: VX = VX - VY wrapping, VF = 1 unless the subtraction borrows.
    SubReg { x: u8, y: u8 },
    /// ANNN: I = NNN.
    SetIndex { nnn: u16 },
    /// CXNN: VX = NN AND a random byte.
    RandMask { x: u8, nn: u8 },
    /// DXYN: draw an N-row sprite from memory[I..] at (VX, VY).
    Draw { x: u8, y: u8, n: u8 },
    /// EX9E: skip the next instruction when key[VX] is pressed.
    SkipKey { x: u8 },
    /// EXA1: skip the next instruction when key[VX] is released.
    SkipNoKey { x: u8 },
    /// FX07: VX = delay timer.
    GetDelay { x: u8 },
    /// FX15: delay timer = VX.
    SetDelay { x: u8 },
    /// FX29: I = address of the built-in font glyph for VX.
    FontAddr { x: u8 },
    /// FX33: store the decimal digits of VX at memory[I..I+3].
    StoreBcd { x: u8 },
    /// FX65: load V0..VX from memory[I..], I itself unchanged.
    LoadRegs { x: u8 },
    /// Any opcode outside the table above: reported and ignored.
    Unknown,
}

/// The X operand: the second nibble of the opcode.
pub open spec fn op_x(op: u16) -> u8 {
    ((op / 0x100) % 16) as u8
}

/// The Y operand: the third nibble of the opcode.
pub open spec fn op_y(op: u16) -> u8 {
    ((op / 0x10) % 16) as u8
}

/// The N operand: the lowest nibble of the opcode.
pub open spec fn op_n(op: u16) -> u8 {
    (op % 16) as u8
}

/// The NN operand: the low byte of the opcode.
pub open spec fn op_nn(op: u16) -> u8 {
    (op % 0x100) as u8
}

/// The NNN operand: the low twelve bits of the opcode.
pub open spec fn op_nnn(op: u16) -> u16 {
    op % 0x1000
}

/// What the decoder yields for each opcode: the top nibble selects the
/// family; families 0x0, 0x8, 0xE and 0xF use a secondary selector.
pub open spec fn decode_spec(op: u16) -> Instr {
    let fam = op / 0x1000;
    if fam == 0x0 {
        if op_n(op) == 0xE {
            Instr::Ret
        } else {
            Instr::Unknown
        }
    } else if fam == 0x1 {
        Instr::Jump { nnn: op_nnn(op) }
    } else if fam == 0x2 {
        Instr::Call { nnn: op_nnn(op) }
    } else if fam == 0x3 {
        Instr::SkipEq { x: op_x(op), nn: op_nn(op) }
    } else if fam == 0x4 {
        Instr::SkipNe { x: op_x(op), nn: op_nn(op) }
    } else if fam == 0x6 {
        Instr::SetReg { x: op_x(op), nn: op_nn(op) }
    } else if fam == 0x7 {
        Instr::AddImm { x: op_x(op), nn: op_nn(op) }
    } else if fam == 0x8 {
        if op_n(op) == 0x0 {
            Instr::CopyReg { x: op_x(op), y: op_y(op) }
        } else if op_n(op) == 0x2 {
            Instr::AndReg { x: op_x(op), y: op_y(op) }
        } else if op_n(op) == 0x4 {
            Instr::AddReg { x: op_x(op), y: op_y(op) }
        } else if op_n(op) == 0x5 {
            Instr::SubReg { x: op_x(op), y: op_y(op) }
        } else {
            Instr::Unknown
        }
    } else if fam == 0xA {
        Instr::SetIndex { nnn: op_nnn(op) }
    } else if fam == 0xC {
        Instr::RandMask { x: op_x(op), nn: op_nn(op) }
    } else if fam == 0xD {
        Instr::Draw { x: op_x(op), y: op_y(op), n: op_n(op) }
    } else if fam == 0xE {
        if op_nn(op) == 0x9E {
            Instr::SkipKey { x: op_x(op) }
        } else if op_nn(op) == 0xA1 {
            Instr::SkipNoKey { x: op_x(op) }
        } else {
            Instr::Unknown
        }
    } else if fam == 0xF {
        if op_nn(op) == 0x07 {
            Instr::GetDelay { x: op_x(op) }
        } else if op_nn(op) == 0x15 {
            Instr::SetDelay { x: op_x(op) }
        } else if op_nn(op) == 0x29 {
            Instr::FontAddr { x: op_x(op) }
        } else if op_nn(op) == 0x33 {
            Instr::StoreBcd { x: op_x(op) }
        } else if op_nn(op) == 0x65 {
            Instr::LoadRegs { x: op_x(op) }
        } else {
            Instr::Unknown
        }
    } else {
        Instr::Unknown
    }
}

/// Decode one opcode. Pure: the instruction is a function of the opcode
/// alone, and every operand is extracted here, never re-derived later.
pub fn decode(op: u16) -> (i: Instr)
    ensures
        i == decode_spec(op),
{
    proof {
        assert(op >> 12 == op / 0x1000) by (bit_vector);
        assert((op >> 8) & 0xF == (op / 0x100) % 16) by (bit_vector);
        assert((op >> 4) & 0xF == (op / 0x10) % 16) by (bit_vector);
        assert(op & 0xF == op % 16) by (bit_vector);
        assert(op & 0xFF == op % 0x100) by (bit_vector);
        assert(op & 0xFFF == op % 0x1000) by (bit_vector);
        assert((op / 0x100) % 16 < 256);
        assert((op / 0x10) % 16 < 256);
        assert(op % 16 < 256);
        assert(op % 0x100 < 256);
    }
    let fam: u16 = op >> 12;
    let x: u8 = ((op >> 8) & 0xF) as u8;
    let y: u8 = ((op >> 4) & 0xF) as u8;
    let n: u8 = (op & 0xF) as u8;
    let nn: u8 = (op & 0xFF) as u8;
    let nnn: u16 = op & 0xFFF;
    match fam {
        0x0 => {
            if n == 0xE {
                Instr::Ret
            } else {
                Instr::Unknown
            }
        },
        0x1 => Instr::Jump { nnn },
        0x2 => Instr::Call { nnn },
        0x3 => Instr::SkipEq { x, nn },
        0x4 => Instr::SkipNe { x, nn },
        0x6 => Instr::SetReg { x, nn },
        0x7 => Instr::AddImm { x, nn },
        0x8 => {
            match n {
                0x0 => Instr::CopyReg { x, y },
                0x2 => Instr::AndReg { x, y },
                0x4 => Instr::AddReg { x, y },
                0x5 => Instr::SubReg { x, y },
                _ => Instr::Unknown,
            }
        },
        0xA => Instr::SetIndex { nnn },
        0xC => Instr::RandMask { x, nn },
        0xD => Instr::Draw { x, y, n },
        0xE => {
            match nn {
                0x9E => Instr::SkipKey { x },
                0xA1 => Instr::SkipNoKey { x },
                _ => Instr::Unknown,
            }
        },
        0xF => {
            match nn {
                0x07 => Instr::GetDelay { x },
                0x15 => Instr::SetDelay { x },
                0x29 => Instr::FontAddr { x },
                0x33 => Instr::StoreBcd { x },
                0x65 => Instr::LoadRegs { x },
                _ => Instr::Unknown,
            }
        },
        _ => Instr::Unknown,
    }
}

} // verus!
