use chip8::cpu::{CPUState, CycleInput, CycleOutput, Fault, KeyState, PixelState, CPU};

fn rom(words: &[u16]) -> Vec<u8> {
    let mut bytes = Vec::new();
    for w in words {
        bytes.push((w >> 8) as u8);
        bytes.push(*w as u8);
    }
    bytes
}

fn quiet() -> CycleInput {
    CycleInput { keys: [KeyState::NotPressed; 16], decrement_timer: false }
}

fn with_keys(pressed: &[usize]) -> CycleInput {
    let mut keys = [KeyState::NotPressed; 16];
    for &k in pressed {
        keys[k] = KeyState::Pressed;
    }
    CycleInput { keys, decrement_timer: false }
}

fn step(cpu: &mut CPU) -> CycleOutput {
    cpu.cycle(&quiet()).expect("cycle faulted")
}

fn steps(cpu: &mut CPU, n: usize) {
    for _ in 0..n {
        step(cpu);
    }
}

fn on(cpu: &CPU, x: usize, y: usize) -> bool {
    matches!(cpu.pixel(x, y), PixelState::On)
}

#[test]
fn draw_glyph_then_redraw_collides_and_clears() {
    // Point I at the glyph for 0 and draw its five rows at (0, 0).
    let mut cpu = CPU::new(&rom(&[0x6000, 0xF029, 0x6100, 0x6200, 0xD125, 0xD125]));
    steps(&mut cpu, 4);
    let out = cpu.cycle(&quiet()).expect("draw faulted");
    assert!(matches!(out.state, CPUState::RunningDraw));
    // Top row of the glyph 0 is 0xF0: four pixels on.
    assert!(on(&cpu, 0, 0) && on(&cpu, 1, 0) && on(&cpu, 2, 0) && on(&cpu, 3, 0));
    assert!(!on(&cpu, 4, 0));
    // Hollow middle: row 1 is 0x90.
    assert!(on(&cpu, 0, 1) && !on(&cpu, 1, 1) && !on(&cpu, 2, 1) && on(&cpu, 3, 1));
    // Nothing landed on a lit pixel the first time.
    assert_eq!(cpu.reg(0xF), 0);

    // The second identical draw XORs every pixel back off and collides.
    let out = cpu.cycle(&quiet()).expect("draw faulted");
    assert!(matches!(out.state, CPUState::RunningDraw));
    assert_eq!(cpu.reg(0xF), 1);
    for y in 0..32 {
        for x in 0..64 {
            assert!(!on(&cpu, x, y));
        }
    }
}

#[test]
fn draw_clips_at_right_edge() {
    // Store a full row byte 0xFF at 0x300, then draw it with origin x = 60.
    let mut cpu = CPU::new(&rom(&[0x60FF, 0xA300, 0xF055, 0x613C, 0x6200, 0xD121]));
    steps(&mut cpu, 6);
    // Columns 60..63 are written...
    assert!(on(&cpu, 60, 0) && on(&cpu, 61, 0) && on(&cpu, 62, 0) && on(&cpu, 63, 0));
    // ...and nothing wraps around to the left edge.
    for x in 0..8 {
        assert!(!on(&cpu, x, 0));
    }
    assert_eq!(cpu.reg(0xF), 0);
}

#[test]
fn draw_clips_at_bottom_edge() {
    // Draw the five-row glyph 0 with origin y = 30: only two rows land.
    let mut cpu = CPU::new(&rom(&[0x6000, 0xF029, 0x6100, 0x621E, 0xD125]));
    steps(&mut cpu, 5);
    assert!(on(&cpu, 0, 30));
    assert!(on(&cpu, 0, 31));
    // The clipped rows never wrap to the top of the screen.
    for y in 0..3 {
        for x in 0..8 {
            assert!(!on(&cpu, x, y));
        }
    }
}

#[test]
fn draw_origin_wraps_modulo_screen() {
    // Origins are taken modulo 64 x 32: (64, 32) is (0, 0).
    let mut cpu = CPU::new(&rom(&[0x6000, 0xF029, 0x6140, 0x6220, 0xD121]));
    steps(&mut cpu, 5);
    assert!(on(&cpu, 0, 0) && on(&cpu, 3, 0));
}

#[test]
fn draw_out_of_memory_faults() {
    // Two sprite rows at I = 0xFFF would read past the end of memory.
    let mut cpu = CPU::new(&rom(&[0xAFFF, 0x6100, 0x6200, 0xD122]));
    steps(&mut cpu, 3);
    assert_eq!(cpu.cycle(&quiet()).err(), Some(Fault::AddressOutOfRange));
    // One row at I = 0xFFF still fits.
    let mut cpu = CPU::new(&rom(&[0xAFFF, 0x6100, 0x6200, 0xD121]));
    steps(&mut cpu, 4);
}

#[test]
fn key_wait_stalls_until_a_key_arrives() {
    let mut cpu = CPU::new(&rom(&[0xF30A]));
    // With no key pressed the same instruction is fetched again and again.
    for _ in 0..5 {
        cpu.cycle(&quiet()).expect("stall faulted");
        assert_eq!(cpu.pc(), 0x200);
    }
    // The lowest-indexed pressed key lands in VX and PC moves on.
    cpu.cycle(&with_keys(&[9, 5])).expect("key wait faulted");
    assert_eq!(cpu.reg(3), 5);
    assert_eq!(cpu.pc(), 0x202);
}

#[test]
fn key_wait_honours_timer_ticks_while_stalled() {
    // The stall still consumes cycles: timers keep running.
    let mut cpu = CPU::new(&rom(&[0x6105, 0xF115, 0xF30A]));
    steps(&mut cpu, 2);
    assert_eq!(cpu.delay(), 5);
    let tick = CycleInput { keys: [KeyState::NotPressed; 16], decrement_timer: true };
    for _ in 0..3 {
        cpu.cycle(&tick).expect("stall faulted");
    }
    assert_eq!(cpu.pc(), 0x200 + 4);
    assert_eq!(cpu.delay(), 2);
}

#[test]
fn skip_on_key_state() {
    // EX9E skips when the key in VX is pressed.
    let mut cpu = CPU::new(&rom(&[0x6105, 0xE19E, 0x6207, 0x6208]));
    step(&mut cpu);
    cpu.cycle(&with_keys(&[5])).expect("key test faulted");
    step(&mut cpu);
    assert_eq!(cpu.reg(2), 8);

    // EX9E does not skip when it is up.
    let mut cpu = CPU::new(&rom(&[0x6105, 0xE19E, 0x6207]));
    steps(&mut cpu, 3);
    assert_eq!(cpu.reg(2), 7);

    // EXA1 skips when the key in VX is not pressed.
    let mut cpu = CPU::new(&rom(&[0x6105, 0xE1A1, 0x6207, 0x6208]));
    steps(&mut cpu, 3);
    assert_eq!(cpu.reg(2), 8);
}

#[test]
fn key_test_rejects_register_above_fifteen() {
    let mut cpu = CPU::new(&rom(&[0x6120, 0xE19E]));
    step(&mut cpu);
    assert_eq!(cpu.cycle(&quiet()).err(), Some(Fault::KeyOutOfRange));
    assert_eq!(cpu.pc(), 0x202);
}
