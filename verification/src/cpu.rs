//! The machine state and the fetch-decode-execute step.

use crate::alu::{alu, spec_alu_flag, spec_alu_value};
use crate::decode::{decode, spec_decode, AluOp, Instruction};
use crate::display::{blank_screen, collides, drawn, packed_bit, FrameBuffer};
use crate::display::{DISP_HEIGHT, DISP_WIDTH};
use crate::entropy::random_byte;
use vstd::prelude::*;
use vstd::slice::slice_subrange;

verus! {

/// Size of the machine's memory in bytes.
pub const MEM_SIZE: usize = 4096;

/// Number of general-purpose registers.
pub const VAR_REG_COUNT: usize = 16;

/// Where program images are loaded and where execution starts.
pub const START_ADDR: u16 = 0x200;

/// Index of the register that doubles as the flag.
pub const FLAG_REG: usize = 0xF;

/// Why a step could not be carried out. The machine is left as it was.
#[derive(Clone, Copy, Debug, PartialEq, Eq, Structural)]
pub enum StepError {
    /// The fetched word encodes no instruction.
    InvalidOpcode,
    /// A return was fetched while the call stack was empty.
    StackUnderflow,
    /// The instruction fetch or a sprite read would leave the memory.
    OutOfBounds,
}

/// The whole state of the machine. Every field is plain state that the owner
/// may read and write between steps.
pub struct CPU {
    pub memory: [u8; 4096],
    pub display: FrameBuffer,
    pub pc: u16,
    pub index_reg: u16,
    pub stack: Vec<u16>,
    pub delay_timer: u8,
    pub sound_timer: u8,
    pub var_regs: [u8; 16],
}

/// The machine state as mathematical values.
pub struct Machine {
    pub memory: Seq<u8>,
    pub display: Seq<bool>,
    pub pc: u16,
    pub index_reg: u16,
    pub stack: Seq<u16>,
    pub delay_timer: u8,
    pub sound_timer: u8,
    pub var_regs: Seq<u8>,
}

impl Machine {
    /// Memory, framebuffer and register file have their fixed sizes.
    pub open spec fn wf(self) -> bool {
        &&& self.memory.len() == 4096
        &&& self.display.len() == 2048
        &&& self.var_regs.len() == 16
    }
}

impl View for CPU {
    type V = Machine;

    open spec fn view(&self) -> Machine {
        Machine {
            memory: self.memory@,
            display: self.display@,
            pc: self.pc,
            index_reg: self.index_reg,
            stack: self.stack@,
            delay_timer: self.delay_timer,
            sound_timer: self.sound_timer,
            var_regs: self.var_regs@,
        }
    }
}

/// The state of a machine that has just been created.
pub open spec fn initial_machine() -> Machine {
    Machine {
        memory: Seq::new(4096, |i: int| 0u8),
        display: blank_screen(),
        pc: 0x200,
        index_reg: 0,
        stack: Seq::empty(),
        delay_timer: 0,
        sound_timer: 0,
        var_regs: Seq::new(16, |i: int| 0u8),
    }
}

/// Memory `mem` after `img` has been copied to it from address `origin` on.
pub open spec fn loaded(mem: Seq<u8>, origin: int, img: Seq<u8>) -> Seq<u8> {
    Seq::new(
        mem.len(),
        |i: int|
            if origin <= i < origin + img.len() {
                img[i - origin]
            } else {
                mem[i]
            },
    )
}

/// Call: the current program counter goes onto the stack and execution
/// continues at `addr`.
pub open spec fn spec_call(m: Machine, addr: u16) -> Machine {
    Machine { stack: m.stack.push(m.pc), pc: addr, ..m }
}

/// Return: the top of the stack becomes the program counter.
pub open spec fn spec_return(m: Machine) -> Result<Machine, StepError> {
    if m.stack.len() == 0 {
        Err(StepError::StackUnderflow)
    } else {
        Ok(Machine { pc: m.stack.last(), stack: m.stack.drop_last(), ..m })
    }
}

/// Skip: the program counter moves past the next instruction when `taken`.
pub open spec fn spec_skip(m: Machine, taken: bool) -> Machine {
    if taken {
        Machine { pc: (m.pc + 2) as u16, ..m }
    } else {
        m
    }
}

/// An arithmetic operation on registers `reg_a` and `reg_b`: the flag, where
/// the operation sets it, is written first, then the result to `reg_a`.
pub open spec fn spec_assign(m: Machine, op: AluOp, reg_a: int, reg_b: int) -> Machine {
    let a = m.var_regs[reg_a];
    let b = m.var_regs[reg_b];
    let flagged = match spec_alu_flag(op, a, b) {
        Some(flag) => m.var_regs.update(0xF, flag),
        None => m.var_regs,
    };
    Machine { var_regs: flagged.update(reg_a, spec_alu_value(op, a, b)), ..m }
}

/// Sprite draw: `rows` bytes from the index register's address on are drawn
/// at the column and row that registers `reg_a` and `reg_b` hold, and the
/// flag register tells whether a lit pixel was turned off.
pub open spec fn spec_draw(m: Machine, reg_a: int, reg_b: int, rows: int) -> Result<
    Machine,
    StepError,
> {
    if m.index_reg + rows > 4096 {
        Err(StepError::OutOfBounds)
    } else {
        let sprite = m.memory.subrange(m.index_reg as int, m.index_reg + rows);
        let x = m.var_regs[reg_a];
        let y = m.var_regs[reg_b];
        let flag = if collides(m.display, x, y, sprite) {
            1u8
        } else {
            0u8
        };
        Ok(
            Machine {
                display: drawn(m.display, x, y, sprite),
                var_regs: m.var_regs.update(0xF, flag),
                ..m
            },
        )
    }
}

/// What `instr` does to a machine whose program counter already points past
/// it. `random` is the byte that the random instruction takes.
pub open spec fn spec_execute(m: Machine, instr: Instruction, random: u8) -> Result<
    Machine,
    StepError,
> {
    match instr {
        Instruction::ClearScreen => Ok(Machine { display: blank_screen(), ..m }),
        Instruction::Return => spec_return(m),
        Instruction::Jump { addr } => Ok(Machine { pc: addr, ..m }),
        Instruction::Call { addr } => Ok(spec_call(m, addr)),
        Instruction::SkipEqImm { reg, imm } => Ok(spec_skip(m, m.var_regs[reg as int] == imm)),
        Instruction::SkipNeImm { reg, imm } => Ok(spec_skip(m, m.var_regs[reg as int] != imm)),
        Instruction::SkipEqReg { reg_a, reg_b } => Ok(
            spec_skip(m, m.var_regs[reg_a as int] == m.var_regs[reg_b as int]),
        ),
        Instruction::LoadImm { reg, imm } => Ok(
            Machine { var_regs: m.var_regs.update(reg as int, imm), ..m },
        ),
        Instruction::AddImm { reg, imm } => Ok(
            Machine {
                var_regs: m.var_regs.update(
                    reg as int,
                    ((m.var_regs[reg as int] + imm) % 256) as u8,
                ),
                ..m
            },
        ),
        Instruction::Alu { op, reg_a, reg_b } => Ok(spec_assign(m, op, reg_a as int, reg_b as int)),
        Instruction::SkipNeReg { reg_a, reg_b } => Ok(
            spec_skip(m, m.var_regs[reg_a as int] != m.var_regs[reg_b as int]),
        ),
        Instruction::LoadIndex { addr } => Ok(Machine { index_reg: addr, ..m }),
        Instruction::JumpOffset { addr } => Ok(
            Machine { pc: (m.var_regs[0] + addr) as u16, ..m },
        ),
        Instruction::Random { reg, mask } => Ok(
            Machine { var_regs: m.var_regs.update(reg as int, random & mask), ..m },
        ),
        Instruction::Draw { reg_a, reg_b, rows } => spec_draw(
            m,
            reg_a as int,
            reg_b as int,
            rows as int,
        ),
    }
}

/// The instruction word at the program counter lies inside the memory.
pub open spec fn fetch_in_bounds(m: Machine) -> bool {
    m.pc + 1 < 4096
}

/// The instruction at the program counter, if the fetch is in bounds and the
/// word encodes one.
pub open spec fn spec_fetch(m: Machine) -> Result<Instruction, StepError> {
    if !fetch_in_bounds(m) {
        Err(StepError::OutOfBounds)
    } else {
        match spec_decode(m.memory[m.pc as int], m.memory[m.pc + 1]) {
            Some(instr) => Ok(instr),
            None => Err(StepError::InvalidOpcode),
        }
    }
}

/// One whole step: fetch the word at the program counter, move the program
/// counter past it, then carry the instruction out.
pub open spec fn spec_step(m: Machine, random: u8) -> Result<Machine, StepError> {
    match spec_fetch(m) {
        Err(e) => Err(e),
        Ok(instr) => spec_execute(Machine { pc: (m.pc + 2) as u16, ..m }, instr, random),
    }
}

/// Whether the next step consumes a random byte.
pub open spec fn wants_random(m: Machine) -> bool {
    spec_fetch(m) matches Ok(Instruction::Random { .. })
}

/// `after` and `r` are what one step from `before` gives when the random
/// byte is `random`: on success the next state, on an error the state as it
/// was.
pub open spec fn step_outcome(
    before: Machine,
    random: u8,
    after: Machine,
    r: Result<(), StepError>,
) -> bool {
    match spec_step(before, random) {
        Ok(next) => r == Ok::<(), StepError>(()) && after == next,
        Err(e) => r == Err::<(), StepError>(e) && after == before,
    }
}

impl CPU {
    /// The framebuffer holds its 2048 pixels, as it does in every machine
    /// that `new` has made.
    pub open spec fn wf(&self) -> bool {
        self.display.wf()
    }

    /// A machine with everything zeroed but the program counter, which
    /// points at the load address.
    pub fn new() -> (cpu: CPU)
        ensures
            cpu.wf(),
            cpu@ == initial_machine(),
    {
        let cpu = CPU {
            memory: [0;4096],
            display: FrameBuffer::new(),
            pc: START_ADDR,
            index_reg: 0,
            stack: Vec::new(),
            delay_timer: 0,
            sound_timer: 0,
            var_regs: [0;16],
        };
        assert(cpu.memory@ =~= initial_machine().memory);
        assert(cpu.var_regs@ =~= initial_machine().var_regs);
        cpu
    }

    /// Copies a program image into memory at the load address.
    pub fn load(&mut self, img: &[u8])
        requires
            img@.len() <= 4096 - 0x200,
        ensures
            final(self)@ == (Machine {
                memory: loaded(old(self)@.memory, 0x200, img@),
                ..old(self)@
            }),
            final(self).wf() == old(self).wf(),
    {
        self.load_at(img, START_ADDR);
    }

    /// Copies `img` into memory from address `origin` on. The image must fit
    /// between `origin` and the end of the memory.
    pub fn load_at(&mut self, img: &[u8], origin: u16)
        requires
            origin + img@.len() <= 4096,
        ensures
            final(self)@ == (Machine {
                memory: loaded(old(self)@.memory, origin as int, img@),
                ..old(self)@
            }),
            final(self).wf() == old(self).wf(),
    {
        let start: usize = origin as usize;
        let mut i: usize = 0;
        while i < img.len()
            invariant
                i <= img@.len(),
                start == origin,
                start + img@.len() <= 4096,
                self@ == (Machine { memory: self.memory@, ..old(self)@ }),
                self.wf() == old(self).wf(),
                forall|k: int|
                    0 <= k < 4096 ==> #[trigger] self.memory@[k] == if start <= k < start + i {
                        img@[k - start]
                    } else {
                        old(self).memory@[k]
                    },
            decreases img@.len() - i,
        {
            self.memory[start + i] = img[i];
            i = i + 1;
        }
        assert(self.memory@ =~= loaded(old(self)@.memory, origin as int, img@));
    }

    /// Width of the framebuffer in pixels.
    pub fn display_width(&self) -> (w: u16)
        ensures
            w == 64,
    {
        DISP_WIDTH
    }

    /// Height of the framebuffer in pixels.
    pub fn display_height(&self) -> (h: u16)
        ensures
            h == 32,
    {
        DISP_HEIGHT
    }

    /// The framebuffer as packed bytes, row by row, eight pixels to a byte
    /// with the leftmost pixel in the top bit.
    pub fn pixels(&self) -> (bytes: Vec<u8>)
        requires
            self.wf(),
        ensures
            bytes@.len() == 256,
            forall|i: int| 0 <= i < 2048 ==> #[trigger] packed_bit(bytes@, i) == self@.display[i],
    {
        self.display.to_bytes()
    }

    /// The raw memory.
    pub fn memory(&self) -> (mem: &[u8; 4096])
        ensures
            mem@ == self@.memory,
    {
        &self.memory
    }

    /// Reads and decodes the instruction word at the program counter.
    pub fn fetch(&self) -> (r: Result<Instruction, StepError>)
        ensures
            r == spec_fetch(self@),
            r matches Ok(instr) ==> instr.valid(),
    {
        let pc: usize = self.pc as usize;
        if pc + 1 >= MEM_SIZE {
            return Err(StepError::OutOfBounds);
        }
        let upper: u8 = self.memory[pc];
        let lower: u8 = self.memory[pc + 1];
        match decode(upper, lower) {
            Some(instr) => Ok(instr),
            None => Err(StepError::InvalidOpcode),
        }
    }

    /// Advances the machine by one instruction. A random-and-mask
    /// instruction takes a fresh byte from the random source; every other
    /// instruction is carried out as `spec_step` says, whatever the byte.
    /// On an error the machine is left as it was.
    pub fn step(&mut self) -> (r: Result<(), StepError>)
        requires
            old(self).wf(),
        ensures
            final(self).wf(),
            exists|random: u8| #[trigger] step_outcome(old(self)@, random, final(self)@, r),
            !wants_random(old(self)@) ==> forall|random: u8| #[trigger]
                step_outcome(old(self)@, random, final(self)@, r),
    {
        let random: u8 = match self.fetch() {
            Ok(Instruction::Random { .. }) => random_byte(),
            _ => 0,
        };
        let r = self.step_with(random);
        assert(step_outcome(old(self)@, random, self@, r));
        r
    }

    /// Advances the machine by one instruction, with `random` as the byte
    /// that a random-and-mask instruction takes. On an error the machine is
    /// left as it was.
    pub fn step_with(&mut self, random: u8) -> (r: Result<(), StepError>)
        requires
            old(self).wf(),
        ensures
            final(self).wf(),
            step_outcome(old(self)@, random, final(self)@, r),
    {
        match self.fetch() {
            Err(e) => Err(e),
            Ok(instr) => {
                let pc: u16 = self.pc;
                self.pc = pc + 2;
                let r = self.execute(instr, random);
                if r.is_err() {
                    self.pc = pc;
                }
                r
            },
        }
    }

    /// Carries out one decoded instruction; the program counter already
    /// points past it. On an error nothing changes.
    fn execute(&mut self, instr: Instruction, random: u8) -> (r: Result<(), StepError>)
        requires
            old(self).wf(),
            instr.valid(),
            old(self).pc <= 4096,
        ensures
            final(self).wf(),
            match spec_execute(old(self)@, instr, random) {
                Ok(next) => r == Ok::<(), StepError>(()) && final(self)@ == next,
                Err(e) => r == Err::<(), StepError>(e) && final(self)@ == old(self)@,
            },
    {
        match instr {
            Instruction::ClearScreen | Instruction::Return => {
                return self.handle_misc(instr);
            },
            Instruction::Jump { addr } => {
                self.pc = addr;
            },
            Instruction::Call { addr } => {
                self.call(addr);
            },
            Instruction::SkipEqImm { reg, imm } => {
                if self.var_regs[reg as usize] == imm {
                    self.pc += 2;
                }
            },
            Instruction::SkipNeImm { reg, imm } => {
                if self.var_regs[reg as usize] != imm {
                    self.pc += 2;
                }
            },
            Instruction::SkipEqReg { reg_a, reg_b } => {
                if self.var_regs[reg_a as usize] == self.var_regs[reg_b as usize] {
                    self.pc += 2;
                }
            },
            Instruction::LoadImm { reg, imm } => {
                self.var_regs[reg as usize] = imm;
            },
            Instruction::AddImm { reg, imm } => {
                let sum: u8 = self.var_regs[reg as usize].wrapping_add(imm);
                self.var_regs[reg as usize] = sum;
            },
            Instruction::Alu { op, reg_a, reg_b } => {
                self.handle_assign(op, reg_a as usize, reg_b as usize);
            },
            Instruction::SkipNeReg { reg_a, reg_b } => {
                if self.var_regs[reg_a as usize] != self.var_regs[reg_b as usize] {
                    self.pc += 2;
                }
            },
            Instruction::LoadIndex { addr } => {
                self.index_reg = addr;
            },
            Instruction::JumpOffset { addr } => {
                self.pc = self.var_regs[0x0] as u16 + addr;
            },
            Instruction::Random { reg, mask } => {
                self.var_regs[reg as usize] = random & mask;
            },
            Instruction::Draw { reg_a, reg_b, rows } => {
                return self.handle_draw(reg_a as usize, reg_b as usize, rows);
            },
        }
        Ok(())
    }

    /// Pushes the program counter and continues at `addr`.
    fn call(&mut self, addr: u16)
        ensures
            final(self)@ == spec_call(old(self)@, addr),
            final(self).wf() == old(self).wf(),
    {
        self.stack.push(self.pc);
        self.pc = addr;
    }

    /// The two instructions of family 0: clear the framebuffer, or return
    /// from a subroutine.
    fn handle_misc(&mut self, instr: Instruction) -> (r: Result<(), StepError>)
        requires
            old(self).wf(),
            instr == Instruction::ClearScreen || instr == Instruction::Return,
        ensures
            final(self).wf(),
            match spec_execute(old(self)@, instr, 0) {
                Ok(next) => r == Ok::<(), StepError>(()) && final(self)@ == next,
                Err(e) => r == Err::<(), StepError>(e) && final(self)@ == old(self)@,
            },
    {
        match instr {
            Instruction::ClearScreen => {
                self.display.clear();
                Ok(())
            },
            _ => match self.stack.pop() {
                Some(addr) => {
                    self.pc = addr;
                    Ok(())
                },
                None => Err(StepError::StackUnderflow),
            },
        }
    }

    /// One register-to-register operation: the flag first, where the
    /// operation sets it, then the result.
    fn handle_assign(&mut self, op: AluOp, reg_idx_a: usize, reg_idx_b: usize)
        requires
            reg_idx_a < 16,
            reg_idx_b < 16,
        ensures
            final(self)@ == spec_assign(old(self)@, op, reg_idx_a as int, reg_idx_b as int),
            final(self).wf() == old(self).wf(),
    {
        let reg_val_a: u8 = self.var_regs[reg_idx_a];
        let reg_val_b: u8 = self.var_regs[reg_idx_b];
        let result = alu(op, reg_val_a, reg_val_b);
        match result.flag {
            Some(flag) => {
                self.var_regs[FLAG_REG] = flag;
            },
            None => {},
        }
        self.var_regs[reg_idx_a] = result.value;
    }

    /// Draws the sprite of `n` rows that the index register points at, and
    /// sets the flag register to the collision signal.
    fn handle_draw(&mut self, reg_idx_a: usize, reg_idx_b: usize, n: u8) -> (r: Result<
        (),
        StepError,
    >)
        requires
            old(self).wf(),
            reg_idx_a < 16,
            reg_idx_b < 16,
            n < 16,
        ensures
            final(self).wf(),
            match spec_draw(old(self)@, reg_idx_a as int, reg_idx_b as int, n as int) {
                Ok(next) => r == Ok::<(), StepError>(()) && final(self)@ == next,
                Err(e) => r == Err::<(), StepError>(e) && final(self)@ == old(self)@,
            },
    {
        let x: u8 = self.var_regs[reg_idx_a];
        let y: u8 = self.var_regs[reg_idx_b];
        let start: usize = self.index_reg as usize;
        let end: usize = start + n as usize;
        if end > MEM_SIZE {
            return Err(StepError::OutOfBounds);
        }
        let sprite = slice_subrange(self.memory.as_slice(), start, end);
        let hit = self.display.draw_sprite(x, y, sprite);
        self.var_regs[FLAG_REG] = if hit {
            1
        } else {
            0
        };
        Ok(())
    }
}

} // verus!
