//! The register-to-register arithmetic family and its flag conventions.

use crate::decode::AluOp;
use vstd::prelude::*;

verus! {

/// What an arithmetic operation writes: the new value of the first register
/// and, for the operations that set it, the flag.
#[derive(Clone, Copy, Debug, PartialEq, Eq, Structural)]
pub struct AluResult {
    pub value: u8,
    pub flag: Option<u8>,
}

/// The value that `op` leaves in the first register, given the values `a`
/// and `b` of the two registers before the operation.
pub open spec fn spec_alu_value(op: AluOp, a: u8, b: u8) -> u8 {
    match op {
        AluOp::Assign => b,
        AluOp::Or => a | b,
        AluOp::And => a & b,
        AluOp::Xor => a ^ b,
        AluOp::Add => ((a + b) % 256) as u8,
        AluOp::Sub => ((a - b) % 256) as u8,
        AluOp::ShiftRight => a / 2,
        AluOp::SubReverse => ((b - a) % 256) as u8,
        AluOp::ShiftLeft => ((a * 2) % 256) as u8,
    }
}

/// The flag that `op` writes: carry for the addition, "no borrow" for the two
/// subtractions, the bit shifted out for the two shifts, none otherwise.
pub open spec fn spec_alu_flag(op: AluOp, a: u8, b: u8) -> Option<u8> {
    match op {
        AluOp::Assign | AluOp::Or | AluOp::And | AluOp::Xor => None,
        AluOp::Add => Some(if a + b > 255 { 1u8 } else { 0u8 }),
        AluOp::Sub => Some(if a >= b { 1u8 } else { 0u8 }),
        AluOp::ShiftRight => Some(a % 2),
        AluOp::SubReverse => Some(if b >= a { 1u8 } else { 0u8 }),
        AluOp::ShiftLeft => Some(a / 128),
    }
}

/// Computes one arithmetic operation on the register values `a` and `b`.
pub fn alu(op: AluOp, a: u8, b: u8) -> (r: AluResult)
    ensures
        r.value == spec_alu_value(op, a, b),
        r.flag == spec_alu_flag(op, a, b),
{
    match op {
        AluOp::Assign => AluResult { value: b, flag: None },
        AluOp::Or => AluResult { value: a | b, flag: None },
        AluOp::And => AluResult { value: a & b, flag: None },
        AluOp::Xor => AluResult { value: a ^ b, flag: None },
        AluOp::Add => {
            let flag: u8 = if a > u8::MAX - b { 1 } else { 0 };
            AluResult { value: a.wrapping_add(b), flag: Some(flag) }
        },
        AluOp::Sub => {
            let flag: u8 = if a >= b { 1 } else { 0 };
            AluResult { value: a.wrapping_sub(b), flag: Some(flag) }
        },
        AluOp::ShiftRight => {
            assert(a >> 1 == a / 2 && a & 1 == a % 2) by (bit_vector);
            AluResult { value: a >> 1, flag: Some(a & 0x1) }
        },
        AluOp::SubReverse => {
            let flag: u8 = if b >= a { 1 } else { 0 };
            AluResult { value: b.wrapping_sub(a), flag: Some(flag) }
        },
        AluOp::ShiftLeft => {
            assert(a << 1 == (a * 2) % 256 && a >> 7 == a / 128) by (bit_vector);
            AluResult { value: a << 1, flag: Some(a >> 7) }
        },
    }
}

} // verus!
