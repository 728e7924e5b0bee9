use chip8_core::cpu::{CPU, START_ADDR};
use chip8_core::display::DISP_WIDTH;

fn read_bits(cpu: &CPU, start: usize) -> u8 {
    let mut byte = 0u8;
    for k in 0..8 {
        let at = start + k;
        let lit = cpu.display.pixel(at % DISP_WIDTH as usize, at / DISP_WIDTH as usize);
        byte = (byte << 1) | (lit as u8);
    }
    byte
}

fn store_bits(cpu: &mut CPU, start: usize, byte: u8) {
    for k in 0..8 {
        let at = start + k;
        let lit = (byte >> (7 - k)) & 1 == 1;
        cpu.display.set_pixel(at % DISP_WIDTH as usize, at / DISP_WIDTH as usize, lit);
    }
}

#[test]
fn test_pc_init() {
    let cpu = CPU::new();
    assert_eq!(cpu.pc, START_ADDR);
}

#[test]
fn test_load() {
    let mut cpu = CPU::new();
    let img = [0x01, 0x02, 0x03, 0x04, 0x05, 0x06, 0x07, 0x08];
    cpu.load(&img);

    assert_eq!(cpu.memory[START_ADDR as usize..(START_ADDR + 8) as usize], img);
}

#[test]
fn test_clear_screen() {
    let mut cpu = CPU::new();
    let img = [0x00, 0xE0];

    cpu.load(&img);
    store_bits(&mut cpu, 0, 0xff);
    assert_eq!(read_bits(&cpu, 0), 0xff);
    cpu.step().unwrap();

    assert_eq!(read_bits(&cpu, 0), 0x00);
}

#[test]
fn test_jump() {
    let mut cpu = CPU::new();
    let img = [0x12, 0x34];

    cpu.load(&img);
    cpu.step().unwrap();
    assert_eq!(cpu.pc, 0x234);
}

#[test]
fn test_set() {
    let mut cpu = CPU::new();
    let img = [0x6A, 0x23];

    cpu.load(&img);
    cpu.step().unwrap();

    assert_eq!(cpu.var_regs[0xA], 0x23);
}

#[test]
fn test_add() {
    let mut cpu = CPU::new();
    let img = [0x7A, 0x23];
    cpu.var_regs[0xA] = 0x45;

    cpu.load(&img);
    cpu.step().unwrap();

    assert_eq!(cpu.var_regs[0xA], 0x68);
}

#[test]
fn test_set_index() {
    let mut cpu = CPU::new();
    let img = [0xA1, 0x23];

    cpu.load(&img);
    cpu.step().unwrap();
    assert_eq!(cpu.index_reg, 0x123);
}

#[test]
fn test_draw() {
    let mut cpu = CPU::new();
    let img = [0xDA, 0xB3, 0x55, 0xaa, 0x55];
    let x = 3;
    let y = 4;

    cpu.index_reg = START_ADDR + 0x2;
    cpu.var_regs[0xA] = x;
    cpu.var_regs[0xB] = y;

    cpu.load(&img);
    cpu.step().unwrap();

    let mut start: usize = y as usize * DISP_WIDTH as usize + x as usize;
    assert_eq!(read_bits(&cpu, start), 0x55);

    start += DISP_WIDTH as usize;
    assert_eq!(read_bits(&cpu, start), 0xaa);

    start += DISP_WIDTH as usize;
    assert_eq!(read_bits(&cpu, start), 0x55);

    assert_eq!(cpu.var_regs[0xF], 0);
}

#[test]
fn test_skip_if_equal() {
    let mut cpu = CPU::new();
    let img = [0x35, 0xC8];

    cpu.var_regs[0x5] = 0xC7;
    cpu.load(&img);
    cpu.step().unwrap();
    assert_eq!(cpu.pc, START_ADDR + 0x2);

    cpu = CPU::new();
    cpu.var_regs[0x5] = 0xC8;
    cpu.load(&img);
    cpu.step().unwrap();
    assert_eq!(cpu.pc, START_ADDR + 0x4);
}

#[test]
fn test_skip_if_not_equal() {
    let mut cpu = CPU::new();
    let img = [0x45, 0xC8];

    cpu.var_regs[0x5] = 0xC7;
    cpu.load(&img);
    cpu.step().unwrap();
    assert_eq!(cpu.pc, START_ADDR + 0x4);

    cpu = CPU::new();
    cpu.var_regs[0x5] = 0xC8;
    cpu.load(&img);
    cpu.step().unwrap();
    assert_eq!(cpu.pc, START_ADDR + 0x2);
}

#[test]
fn test_skip_if_regs_equal() {
    let mut cpu = CPU::new();
    let img = [0x5A, 0x60];

    cpu.var_regs[0xA] = 0xB2;
    cpu.var_regs[0x6] = 0xB2;
    cpu.load(&img);
    cpu.step().unwrap();
    assert_eq!(cpu.pc, START_ADDR + 0x4);

    cpu = CPU::new();
    cpu.var_regs[0xA] = 0xB2;
    cpu.var_regs[0x6] = 0xB3;
    cpu.load(&img);
    cpu.step().unwrap();
    assert_eq!(cpu.pc, START_ADDR + 0x2);
}

#[test]
fn test_skip_if_regs_not_equal() {
    let mut cpu = CPU::new();
    let img = [0x9A, 0x60];

    cpu.var_regs[0xA] = 0xB2;
    cpu.var_regs[0x6] = 0xB2;
    cpu.load(&img);
    cpu.step().unwrap();
    assert_eq!(cpu.pc, START_ADDR + 0x2);

    cpu = CPU::new();
    cpu.var_regs[0xA] = 0xB2;
    cpu.var_regs[0x6] = 0xB3;
    cpu.load(&img);
    cpu.step().unwrap();
    assert_eq!(cpu.pc, START_ADDR + 0x4);
}

#[test]
fn test_assign() {
    let mut cpu = CPU::new();
    let img = [0x8B, 0xC0];

    cpu.var_regs[0xC] = 0x2C;
    cpu.load(&img);
    cpu.step().unwrap();
    assert_eq!(cpu.var_regs[0xB], 0x2C);
}

#[test]
fn test_or_assign() {
    let mut cpu = CPU::new();
    let img = [0x8B, 0xC1];

    cpu.var_regs[0xB] = 0xAA;
    cpu.var_regs[0xC] = 0x55;
    cpu.load(&img);
    cpu.step().unwrap();
    assert_eq!(cpu.var_regs[0xB], 0xFF);
}

#[test]
fn test_and_assign() {
    let mut cpu = CPU::new();
    let img = [0x8B, 0xC2];

    cpu.var_regs[0xB] = 0xAA;
    cpu.var_regs[0xC] = 0xA5;
    cpu.load(&img);
    cpu.step().unwrap();
    assert_eq!(cpu.var_regs[0xB], 0xA0);
}

#[test]
fn test_xor_assign() {
    let mut cpu = CPU::new();
    let img = [0x8B, 0xC3];

    cpu.var_regs[0xB] = 0xAA;
    cpu.var_regs[0xC] = 0xA5;
    cpu.load(&img);
    cpu.step().unwrap();
    assert_eq!(cpu.var_regs[0xB], 0x0F);
}

#[test]
fn test_add_assign() {
    let mut cpu = CPU::new();
    let img = [0x8B, 0xC4];

    cpu.var_regs[0xB] = 0xF3;
    cpu.var_regs[0xC] = 0x45;
    cpu.load(&img);
    cpu.step().unwrap();
    assert_eq!(cpu.var_regs[0xB], 0x38);
    assert_eq!(cpu.var_regs[0xF], 1);
}

// 0x45 - 0xF3 borrows, and the flag of a subtraction is 1 only when there is
// no borrow.
#[test]
fn test_sub_assign() {
    let mut cpu = CPU::new();
    let img = [0x8B, 0xC5];

    cpu.var_regs[0xB] = 0x45;
    cpu.var_regs[0xC] = 0xF3;
    cpu.load(&img);
    cpu.step().unwrap();
    assert_eq!(cpu.var_regs[0xB], 0x52);
    assert_eq!(cpu.var_regs[0xF], 0);
}

#[test]
fn test_right_shift_assign() {
    let mut cpu = CPU::new();
    let img = [0x8B, 0xC6];

    cpu.var_regs[0xB] = 0x45;
    cpu.load(&img);
    cpu.step().unwrap();
    assert_eq!(cpu.var_regs[0xB], 0x22);
    assert_eq!(cpu.var_regs[0xF], 1);
}

// 0x45 - 0xF3 borrows here too: the second register is the minuend.
#[test]
fn test_reverse_sub_assign() {
    let mut cpu = CPU::new();
    let img = [0x8B, 0xC7];

    cpu.var_regs[0xB] = 0xF3;
    cpu.var_regs[0xC] = 0x45;
    cpu.load(&img);
    cpu.step().unwrap();
    assert_eq!(cpu.var_regs[0xB], 0x52);
    assert_eq!(cpu.var_regs[0xF], 0);
}

#[test]
fn test_left_shift_assign() {
    let mut cpu = CPU::new();
    let img = [0x8B, 0xCE];

    cpu.var_regs[0xB] = 0xFF;
    cpu.load(&img);
    cpu.step().unwrap();
    assert_eq!(cpu.var_regs[0xB], 0xFE);
    assert_eq!(cpu.var_regs[0xF], 1);
}

#[test]
fn test_reg_offset_jump() {
    let mut cpu = CPU::new();
    let img = [0xB2, 0x02];

    cpu.var_regs[0x0] = 0x23;
    cpu.load(&img);
    cpu.step().unwrap();
    assert_eq!(cpu.pc, 0x225);
}

#[test]
fn test_random_assign() {
    let mut cpu = CPU::new();
    let img = [0xC8, 0xF0];

    cpu.var_regs[0x8] = 0xFF;
    cpu.load(&img);
    cpu.step().unwrap();

    assert_eq!(cpu.var_regs[0x8] & 0xF, 0);
}

#[test]
fn test_call() {
    let mut cpu = CPU::new();
    let img = [0x23, 0x45];

    cpu.load(&img);
    cpu.step().unwrap();

    assert_eq!(cpu.stack[0], START_ADDR + 0x2);
    assert_eq!(cpu.pc, 0x345);
}

#[test]
fn test_return() {
    let mut cpu = CPU::new();
    let img = [0x00, 0xEE];

    cpu.stack.push(0x369);
    cpu.load(&img);
    cpu.step().unwrap();

    assert_eq!(cpu.pc, 0x369);
    assert_eq!(cpu.stack.len(), 0);
}
