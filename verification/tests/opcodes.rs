use chip8::cpu::{CPUState, CycleInput, CycleOutput, Fault, KeyState, CPU};

fn rom(words: &[u16]) -> Vec<u8> {
    let mut bytes = Vec::new();
    for w in words {
        bytes.push((w >> 8) as u8);
        bytes.push(*w as u8);
    }
    bytes
}

fn quiet() -> CycleInput {
    CycleInput { keys: [KeyState::NotPressed; 16], decrement_timer: false }
}

fn step(cpu: &mut CPU) -> CycleOutput {
    cpu.cycle(&quiet()).expect("cycle faulted")
}

fn steps(cpu: &mut CPU, n: usize) {
    for _ in 0..n {
        step(cpu);
    }
}

#[test]
fn load_then_add_wraps() {
    // 6ANN then 7ANN': VA holds the wrapping sum.
    let mut cpu = CPU::new(&rom(&[0x6A0F, 0x7AF8]));
    steps(&mut cpu, 2);
    assert_eq!(cpu.reg(0xA), 0x0Fu8.wrapping_add(0xF8));

    let mut cpu = CPU::new(&rom(&[0x6105, 0x7103]));
    steps(&mut cpu, 2);
    assert_eq!(cpu.reg(1), 8);
}

#[test]
fn add_with_carry() {
    // 0xFF + 0x01 wraps to 0x00 and sets the carry flag.
    let mut cpu = CPU::new(&rom(&[0x61FF, 0x6201, 0x8124]));
    steps(&mut cpu, 3);
    assert_eq!(cpu.reg(1), 0x00);
    assert_eq!(cpu.reg(0xF), 1);

    // 0x01 + 0x01 = 0x02 with no carry.
    let mut cpu = CPU::new(&rom(&[0x6101, 0x6201, 0x8124]));
    steps(&mut cpu, 3);
    assert_eq!(cpu.reg(1), 0x02);
    assert_eq!(cpu.reg(0xF), 0);
}

#[test]
fn sub_with_borrow() {
    // 0x01 - 0x02 borrows: result 0xFF, VF = 0.
    let mut cpu = CPU::new(&rom(&[0x6101, 0x6202, 0x8125]));
    steps(&mut cpu, 3);
    assert_eq!(cpu.reg(1), 0xFF);
    assert_eq!(cpu.reg(0xF), 0);

    // 0x02 - 0x01 = 0x01 with no borrow: VF = 1.
    let mut cpu = CPU::new(&rom(&[0x6102, 0x6201, 0x8125]));
    steps(&mut cpu, 3);
    assert_eq!(cpu.reg(1), 0x01);
    assert_eq!(cpu.reg(0xF), 1);
}

#[test]
fn reverse_sub_with_borrow() {
    // 8XY7: V1 = V2 - V1; 5 - 2 = 3, no borrow.
    let mut cpu = CPU::new(&rom(&[0x6102, 0x6205, 0x8127]));
    steps(&mut cpu, 3);
    assert_eq!(cpu.reg(1), 3);
    assert_eq!(cpu.reg(0xF), 1);

    // 2 - 5 borrows.
    let mut cpu = CPU::new(&rom(&[0x6105, 0x6202, 0x8127]));
    steps(&mut cpu, 3);
    assert_eq!(cpu.reg(1), 0xFDu8);
    assert_eq!(cpu.reg(0xF), 0);
}

#[test]
fn bitwise_ops() {
    // 8XY1 / 8XY2 / 8XY3 on 0b1100 and 0b1010.
    let mut cpu = CPU::new(&rom(&[0x610C, 0x620A, 0x8121]));
    steps(&mut cpu, 3);
    assert_eq!(cpu.reg(1), 0x0E);

    let mut cpu = CPU::new(&rom(&[0x610C, 0x620A, 0x8122]));
    steps(&mut cpu, 3);
    assert_eq!(cpu.reg(1), 0x08);

    let mut cpu = CPU::new(&rom(&[0x610C, 0x620A, 0x8123]));
    steps(&mut cpu, 3);
    assert_eq!(cpu.reg(1), 0x06);

    // 8XY0 copies.
    let mut cpu = CPU::new(&rom(&[0x6233, 0x8120]));
    steps(&mut cpu, 2);
    assert_eq!(cpu.reg(1), 0x33);
}

#[test]
fn shifts_set_flag_from_dropped_bit() {
    // 8XY6: V1 = 5 >> 1 = 2, VF = dropped low bit 1.
    let mut cpu = CPU::new(&rom(&[0x6105, 0x8106]));
    steps(&mut cpu, 2);
    assert_eq!(cpu.reg(1), 2);
    assert_eq!(cpu.reg(0xF), 1);

    // 8XYE: V1 = 0xC0 << 1 = 0x80, VF = dropped top bit 1.
    let mut cpu = CPU::new(&rom(&[0x61C0, 0x810E]));
    steps(&mut cpu, 2);
    assert_eq!(cpu.reg(1), 0x80);
    assert_eq!(cpu.reg(0xF), 1);

    // Dropped bits of zero leave VF = 0.
    let mut cpu = CPU::new(&rom(&[0x6104, 0x8106]));
    steps(&mut cpu, 2);
    assert_eq!(cpu.reg(1), 2);
    assert_eq!(cpu.reg(0xF), 0);
}

#[test]
fn skip_instructions() {
    // 3XNN skips when equal: V2 must end up 8, never 7.
    let mut cpu = CPU::new(&rom(&[0x6105, 0x3105, 0x6207, 0x6208]));
    steps(&mut cpu, 3);
    assert_eq!(cpu.reg(2), 8);

    // 3XNN does not skip when unequal.
    let mut cpu = CPU::new(&rom(&[0x6105, 0x3106, 0x6207]));
    steps(&mut cpu, 3);
    assert_eq!(cpu.reg(2), 7);

    // 4XNN skips when unequal.
    let mut cpu = CPU::new(&rom(&[0x6105, 0x4106, 0x6207, 0x6208]));
    steps(&mut cpu, 3);
    assert_eq!(cpu.reg(2), 8);

    // 5XY0 skips when the registers match.
    let mut cpu = CPU::new(&rom(&[0x6105, 0x6205, 0x5120, 0x6307, 0x6308]));
    steps(&mut cpu, 4);
    assert_eq!(cpu.reg(3), 8);

    // 9XY0 skips when they differ.
    let mut cpu = CPU::new(&rom(&[0x6105, 0x6206, 0x9120, 0x6307, 0x6308]));
    steps(&mut cpu, 4);
    assert_eq!(cpu.reg(3), 8);
}

#[test]
fn jumps() {
    // 1NNN: jump lands at NNN.
    let mut cpu = CPU::new(&rom(&[0x1208]));
    step(&mut cpu);
    assert_eq!(cpu.pc(), 0x208);

    // BNNN: jump lands at NNN + V0.
    let mut cpu = CPU::new(&rom(&[0x6004, 0xB204]));
    steps(&mut cpu, 2);
    assert_eq!(cpu.pc(), 0x208);
}

#[test]
fn call_and_return() {
    // 2NNN dives into a subroutine, 00EE comes back to the instruction
    // after the call.
    let mut cpu = CPU::new(&rom(&[0x2204, 0x6105, 0x00EE]));
    step(&mut cpu);
    assert_eq!(cpu.pc(), 0x204);
    step(&mut cpu);
    assert_eq!(cpu.pc(), 0x202);
    step(&mut cpu);
    assert_eq!(cpu.reg(1), 5);
}

#[test]
fn set_index_register() {
    let mut cpu = CPU::new(&rom(&[0xA123]));
    step(&mut cpu);
    assert_eq!(cpu.index_reg(), 0x123);
}

#[test]
fn masked_random() {
    // CXNN masks the random byte: a zero mask pins VX to zero.
    let mut cpu = CPU::new(&rom(&[0x6177, 0xC100]));
    steps(&mut cpu, 2);
    assert_eq!(cpu.reg(1), 0);

    // With mask 0x0F the high nibble is always clear.
    let mut cpu = CPU::new(&rom(&[0xC20F]));
    step(&mut cpu);
    assert_eq!(cpu.reg(2) & 0xF0, 0);
}

#[test]
fn unknown_opcode_reports_instruction_and_address() {
    let mut cpu = CPU::new(&rom(&[0x6105, 0xFFFF]));
    step(&mut cpu);
    let r = cpu.cycle(&quiet());
    assert_eq!(r.err(), Some(Fault::UnknownOpcode { instruction: 0xFFFF, address: 0x202 }));
    // The fault leaves the machine untouched.
    assert_eq!(cpu.pc(), 0x202);
    assert_eq!(cpu.reg(1), 5);

    let mut cpu = CPU::new(&rom(&[0x00E1]));
    assert_eq!(
        cpu.cycle(&quiet()).err(),
        Some(Fault::UnknownOpcode { instruction: 0x00E1, address: 0x200 })
    );

    let mut cpu = CPU::new(&rom(&[0x8EE8]));
    assert_eq!(
        cpu.cycle(&quiet()).err(),
        Some(Fault::UnknownOpcode { instruction: 0x8EE8, address: 0x200 })
    );

    let mut cpu = CPU::new(&rom(&[0xE1FF]));
    assert_eq!(
        cpu.cycle(&quiet()).err(),
        Some(Fault::UnknownOpcode { instruction: 0xE1FF, address: 0x200 })
    );
}

#[test]
fn status_running_on_plain_cycles() {
    let mut cpu = CPU::new(&rom(&[0x6105]));
    let out = step(&mut cpu);
    assert!(matches!(out.state, CPUState::Running));
    assert!(!out.beep);
}
