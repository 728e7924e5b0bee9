//! A CHIP-8 style virtual machine core: machine state plus a verified
//! fetch-decode-execute step.

pub mod alu;
pub mod cpu;
pub mod decode;
pub mod display;
pub mod entropy;
pub mod theorems;

pub use cpu::{Machine, StepError, CPU, MEM_SIZE, START_ADDR, VAR_REG_COUNT};
pub use decode::{AluOp, Instruction};
pub use display::{FrameBuffer, DISP_HEIGHT, DISP_WIDTH};
