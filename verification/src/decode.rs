//! Instruction decoding: two fetched bytes to one instruction.

use vstd::prelude::*;

verus! {

/// The register-to-register operations of the arithmetic family.
#[derive(Clone, Copy, Debug, PartialEq, Eq, Structural)]
pub enum AluOp {
    Assign,
    Or,
    And,
    Xor,
    Add,
    Sub,
    ShiftRight,
    SubReverse,
    ShiftLeft,
}

/// One decoded instruction. Register operands are indices below 16, address
/// operands are below 4096 and a sprite height is below 16.
#[derive(Clone, Copy, Debug, PartialEq, Eq, Structural)]
pub enum Instruction {
    ClearScreen,
    Return,
    Jump { addr: u16 },
    Call { addr: u16 },
    SkipEqImm { reg: u8, imm: u8 },
    SkipNeImm { reg: u8, imm: u8 },
    SkipEqReg { reg_a: u8, reg_b: u8 },
    LoadImm { reg: u8, imm: u8 },
    AddImm { reg: u8, imm: u8 },
    Alu { op: AluOp, reg_a: u8, reg_b: u8 },
    SkipNeReg { reg_a: u8, reg_b: u8 },
    LoadIndex { addr: u16 },
    JumpOffset { addr: u16 },
    Random { reg: u8, mask: u8 },
    Draw { reg_a: u8, reg_b: u8, rows: u8 },
}

impl Instruction {
    /// Every operand is in the range that its field of the instruction word
    /// can hold.
    pub open spec fn valid(self) -> bool {
        match self {
            Instruction::ClearScreen | Instruction::Return => true,
            Instruction::Jump { addr } => addr < 4096,
            Instruction::Call { addr } => addr < 4096,
            Instruction::SkipEqImm { reg, imm } => reg < 16,
            Instruction::SkipNeImm { reg, imm } => reg < 16,
            Instruction::SkipEqReg { reg_a, reg_b } => reg_a < 16 && reg_b < 16,
            Instruction::LoadImm { reg, imm } => reg < 16,
            Instruction::AddImm { reg, imm } => reg < 16,
            Instruction::Alu { op, reg_a, reg_b } => reg_a < 16 && reg_b < 16,
            Instruction::SkipNeReg { reg_a, reg_b } => reg_a < 16 && reg_b < 16,
            Instruction::LoadIndex { addr } => addr < 4096,
            Instruction::JumpOffset { addr } => addr < 4096,
            Instruction::Random { reg, mask } => reg < 16,
            Instruction::Draw { reg_a, reg_b, rows } => reg_a < 16 && reg_b < 16 && rows < 16,
        }
    }
}

/// The operation that a selector nibble of the arithmetic family names, if
/// it names one.
pub open spec fn spec_alu_op(selector: int) -> Option<AluOp> {
    if selector == 0x0 {
        Some(AluOp::Assign)
    } else if selector == 0x1 {
        Some(AluOp::Or)
    } else if selector == 0x2 {
        Some(AluOp::And)
    } else if selector == 0x3 {
        Some(AluOp::Xor)
    } else if selector == 0x4 {
        Some(AluOp::Add)
    } else if selector == 0x5 {
        Some(AluOp::Sub)
    } else if selector == 0x6 {
        Some(AluOp::ShiftRight)
    } else if selector == 0x7 {
        Some(AluOp::SubReverse)
    } else if selector == 0xE {
        Some(AluOp::ShiftLeft)
    } else {
        None
    }
}

/// The instruction that the word `upper`, `lower` encodes, by the position of
/// its four nibbles; `None` for a word that encodes none.
pub open spec fn spec_decode(upper: u8, lower: u8) -> Option<Instruction> {
    let family = upper as int / 16;
    let a = (upper as int % 16) as u8;
    let b = (lower as int / 16) as u8;
    let n = (lower as int % 16) as u8;
    let addr = (a as int * 256 + lower as int) as u16;
    if family == 0x0 {
        if upper == 0x00 && lower == 0xE0 {
            Some(Instruction::ClearScreen)
        } else if upper == 0x00 && lower == 0xEE {
            Some(Instruction::Return)
        } else {
            None
        }
    } else if family == 0x1 {
        Some(Instruction::Jump { addr })
    } else if family == 0x2 {
        Some(Instruction::Call { addr })
    } else if family == 0x3 {
        Some(Instruction::SkipEqImm { reg: a, imm: lower })
    } else if family == 0x4 {
        Some(Instruction::SkipNeImm { reg: a, imm: lower })
    } else if family == 0x5 {
        Some(Instruction::SkipEqReg { reg_a: a, reg_b: b })
    } else if family == 0x6 {
        Some(Instruction::LoadImm { reg: a, imm: lower })
    } else if family == 0x7 {
        Some(Instruction::AddImm { reg: a, imm: lower })
    } else if family == 0x8 {
        match spec_alu_op(n as int) {
            Some(op) => Some(Instruction::Alu { op, reg_a: a, reg_b: b }),
            None => None,
        }
    } else if family == 0x9 {
        Some(Instruction::SkipNeReg { reg_a: a, reg_b: b })
    } else if family == 0xA {
        Some(Instruction::LoadIndex { addr })
    } else if family == 0xB {
        Some(Instruction::JumpOffset { addr })
    } else if family == 0xC {
        Some(Instruction::Random { reg: a, mask: lower })
    } else if family == 0xD {
        Some(Instruction::Draw { reg_a: a, reg_b: b, rows: n })
    } else {
        None
    }
}

/// Names the arithmetic operation of a selector nibble.
pub fn alu_op(selector: u8) -> (r: Option<AluOp>)
    ensures
        r == spec_alu_op(selector as int),
{
    match selector {
        0x0 => Some(AluOp::Assign),
        0x1 => Some(AluOp::Or),
        0x2 => Some(AluOp::And),
        0x3 => Some(AluOp::Xor),
        0x4 => Some(AluOp::Add),
        0x5 => Some(AluOp::Sub),
        0x6 => Some(AluOp::ShiftRight),
        0x7 => Some(AluOp::SubReverse),
        0xE => Some(AluOp::ShiftLeft),
        _ => None,
    }
}

/// Decodes one instruction word. The result is `None` exactly for the words
/// that encode no instruction, and every instruction that comes out is valid.
pub fn decode(upper: u8, lower: u8) -> (r: Option<Instruction>)
    ensures
        r == spec_decode(upper, lower),
        r matches Some(instr) ==> instr.valid(),
{
    let family: u8 = upper >> 4;
    let a: u8 = upper & 0xf;
    let b: u8 = lower >> 4;
    let n: u8 = lower & 0xf;
    let addr: u16 = ((upper as u16) << 8 | (lower as u16)) & 0xfff;
    assert(upper >> 4 == upper / 16 && upper & 0xf == upper % 16) by (bit_vector);
    assert(lower >> 4 == lower / 16 && lower & 0xf == lower % 16) by (bit_vector);
    assert(((upper as u16) << 8 | (lower as u16)) & 0xfff == (upper % 16) as u16 * 256
        + lower as u16) by (bit_vector);
    match family {
        0x0 => {
            if upper == 0x00 && lower == 0xE0 {
                Some(Instruction::ClearScreen)
            } else if upper == 0x00 && lower == 0xEE {
                Some(Instruction::Return)
            } else {
                None
            }
        },
        0x1 => Some(Instruction::Jump { addr }),
        0x2 => Some(Instruction::Call { addr }),
        0x3 => Some(Instruction::SkipEqImm { reg: a, imm: lower }),
        0x4 => Some(Instruction::SkipNeImm { reg: a, imm: lower }),
        0x5 => Some(Instruction::SkipEqReg { reg_a: a, reg_b: b }),
        0x6 => Some(Instruction::LoadImm { reg: a, imm: lower }),
        0x7 => Some(Instruction::AddImm { reg: a, imm: lower }),
        0x8 => match alu_op(n) {
            Some(op) => Some(Instruction::Alu { op, reg_a: a, reg_b: b }),
            None => None,
        },
        0x9 => Some(Instruction::SkipNeReg { reg_a: a, reg_b: b }),
        0xA => Some(Instruction::LoadIndex { addr }),
        0xB => Some(Instruction::JumpOffset { addr }),
        0xC => Some(Instruction::Random { reg: a, mask: lower }),
        0xD => Some(Instruction::Draw { reg_a: a, reg_b: b, rows: n }),
        _ => None,
    }
}

} // verus!
