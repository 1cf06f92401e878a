//! The executable CHIP-8 machine.
//!
//! [`CPU`] holds the machine state in fixed-size arrays; [`CPU::cycle`]
//! performs one fetch-decode-execute-timer step. Every opcode handler is
//! proved equal to the corresponding spec function of [`crate::model`].

use vstd::prelude::*;

use crate::model::Chip8State;
use crate::model::first_pressed;
use crate::model::first_pressed_from;
use crate::model::initial_state;
use crate::model::op_n;
use crate::model::op_nnn;
use crate::model::op_x;
use crate::model::op_y;
use crate::model::step_0;
use crate::model::step_1;
use crate::model::step_2;
use crate::model::step_3;
use crate::model::step_4;
use crate::model::step_5;
use crate::model::step_6;
use crate::model::step_7;
use crate::model::step_8;
use crate::model::step_9;
use crate::model::step_a;
use crate::model::step_b;
use crate::model::step_c;
use crate::model::step_e;
use crate::model::step_f;
use crate::model::step_d;
use crate::model::sprite_bit;
use crate::model::flip;
use crate::model::draw_gfx;
use crate::model::draw_collision;
use crate::model::fontset;
use crate::model::cycle_model;
use crate::model::exec_instr;
use crate::model::tick_timers;
use crate::model::op_family;

verus! {

/// Observable machine status after a cycle. `RunningDraw` is reported for
/// exactly the cycles in which the framebuffer changed (a clear or a draw).
#[derive(Debug, Clone, Copy, PartialEq, Eq, Structural)]
pub enum CPUState {
    Running,
    RunningDraw,
}

/// State of one keypad key as sampled by the host for a cycle.
#[derive(Debug, Clone, Copy, PartialEq, Eq, Structural)]
pub enum KeyState {
    Pressed,
    NotPressed,
}

/// State of one framebuffer pixel.
#[derive(Debug, Clone, Copy, PartialEq, Eq, Structural)]
pub enum PixelState {
    On,
    Off,
}

/// Why a cycle could not complete. A fault leaves the machine exactly as it
/// was before the cycle, so a host can report the condition and stop cleanly.
#[derive(Debug, Clone, Copy, PartialEq, Eq, Structural)]
pub enum Fault {
    /// The fetched instruction belongs to no defined opcode. Carries the
    /// instruction and the address it was fetched from.
    UnknownOpcode { instruction: u16, address: u16 },
    /// A memory access through PC or I would fall outside the 4096 bytes.
    AddressOutOfRange,
    /// A call would push beyond the last stack slot.
    StackOverflow,
    /// A return was executed with an empty call stack.
    StackUnderflow,
    /// A key test named a key index above 15.
    KeyOutOfRange,
}

/// Host-supplied inputs for one cycle.
#[derive(Clone, Copy)]
pub struct CycleInput {
    /// The sampled state of the sixteen keypad keys.
    pub keys: [KeyState; 16],
    /// True when a 60 Hz timer boundary has elapsed since the last cycle.
    pub decrement_timer: bool,
}

/// Observable outputs of one cycle.
#[derive(Clone, Copy)]
pub struct CycleOutput {
    /// Machine status for this cycle.
    pub state: CPUState,
    /// The framebuffer after this cycle, row-major, 64 x 32.
    pub gfx: [PixelState; 2048],
    /// True while the sound timer is nonzero.
    pub beep: bool,
}

/// The CHIP-8 machine.
pub struct CPU {
    mem: [u8; 4096],
    gfx: [PixelState; 2048],
    v: [u8; 16],
    pc: u16,
    i: u16,
    delay_timer: u8,
    sound_timer: u8,
    stack: [u16; 16],
    sp: usize,
    state: CPUState,
}

impl View for CPU {
    type V = Chip8State;

    closed spec fn view(&self) -> Chip8State {
        Chip8State {
            mem: self.mem@,
            gfx: self.gfx@,
            v: self.v@,
            pc: self.pc,
            i: self.i,
            delay: self.delay_timer,
            sound: self.sound_timer,
            stack: self.stack@,
            sp: self.sp,
            status: self.state,
        }
    }
}

impl CPU {
    /// Internal invariant: the stack pointer stays on a valid slot. The array
    /// sizes are fixed by the types, so this is all that is left to state.
    pub open spec fn wf(&self) -> bool {
        self@.sp <= 15
    }

    /// Build a machine for a program: the glyph table lands at 0x50, the
    /// program at 0x200, and PC starts at the program's first byte. The
    /// program must fit below the end of memory.
    #[verifier::loop_isolation(false)]
    pub fn new(program: &[u8]) -> (cpu: CPU)
        requires
            program@.len() <= 0xE00,
        ensures
            cpu.wf(),
            cpu@ == initial_state(program@),
    {
        let glyphs: [u8; 80] = [
            0xF0, 0x90, 0x90, 0x90, 0xF0,  // 0
            0x20, 0x60, 0x20, 0x20, 0x70,  // 1
            0xF0, 0x10, 0xF0, 0x80, 0xF0,  // 2
            0xF0, 0x10, 0xF0, 0x10, 0xF0,  // 3
            0x90, 0x90, 0xF0, 0x10, 0x10,  // 4
            0xF0, 0x80, 0xF0, 0x10, 0xF0,  // 5
            0xF0, 0x80, 0xF0, 0x90, 0xF0,  // 6
            0xF0, 0x10, 0x20, 0x40, 0x40,  // 7
            0xF0, 0x90, 0xF0, 0x90, 0xF0,  // 8
            0xF0, 0x90, 0xF0, 0x10, 0xF0,  // 9
            0xF0, 0x90, 0xF0, 0x90, 0x90,  // A
            0xE0, 0x90, 0xE0, 0x90, 0xE0,  // B
            0xF0, 0x80, 0x80, 0x80, 0xF0,  // C
            0xE0, 0x90, 0x90, 0x90, 0xE0,  // D
            0xF0, 0x80, 0xF0, 0x80, 0xF0,  // E
            0xF0, 0x80, 0xF0, 0x80, 0x80,  // F
        ];
        proof {
            assert(glyphs@ =~= fontset());
        }
        let mut mem: [u8; 4096] = [0; 4096];
        let mut k: usize = 0;
        while k < 80
            invariant
                k <= 80,
                forall|j: int| 0x50 <= j < 0x50 + k ==> mem@[j] == fontset()[j - 0x50],
                forall|j: int| 0 <= j < 4096 && !(0x50 <= j < 0x50 + k) ==> mem@[j] == 0u8,
            decreases 80 - k,
        {
            mem[0x50 + k] = glyphs[k];
            k += 1;
        }
        let mut t: usize = 0;
        while t < program.len()
            invariant
                t <= program@.len(),
                forall|j: int| 0x50 <= j < 0xA0 ==> mem@[j] == fontset()[j - 0x50],
                forall|j: int| 0x200 <= j < 0x200 + t ==> mem@[j] == program@[j - 0x200],
                forall|j: int|
                    0 <= j < 4096 && !(0x50 <= j < 0xA0) && !(0x200 <= j < 0x200 + t)
                        ==> mem@[j] == 0u8,
            decreases program@.len() - t,
        {
            mem[0x200 + t] = program[t];
            t += 1;
        }
        let cpu = CPU {
            mem,
            gfx: [PixelState::Off; 2048],
            v: [0; 16],
            pc: 0x200,
            i: 0,
            delay_timer: 0,
            sound_timer: 0,
            stack: [0; 16],
            sp: 0,
            state: CPUState::Running,
        };
        proof {
            assert(cpu@.mem =~= initial_state(program@).mem);
            assert(cpu@.gfx =~= initial_state(program@).gfx);
            assert(cpu@.v =~= initial_state(program@).v);
            assert(cpu@.stack =~= initial_state(program@).stack);
            assert(cpu@ =~= initial_state(program@));
        }
        cpu
    }

    /// Run one machine cycle with the given inputs. On success the returned
    /// outputs describe the new state; on a fault the machine is left exactly
    /// as it was. The post-state is the transition [`cycle_model`] taken at
    /// the byte the random generator produced for this cycle.
    pub fn cycle(&mut self, input: &CycleInput) -> (r: Result<CycleOutput, Fault>)
        requires
            old(self).wf(),
        ensures
            final(self).wf(),
            match r {
                Ok(out) => {
                    &&& exists|rb: u8|
                        cycle_model(old(self)@, input.keys@, input.decrement_timer, rb) == Ok::<
                            Chip8State,
                            Fault,
                        >(final(self)@)
                    &&& out.state == final(self)@.status
                    &&& out.gfx@ == final(self)@.gfx
                    &&& out.beep == (final(self)@.sound != 0)
                },
                Err(f) => {
                    &&& final(self)@ == old(self)@
                    &&& forall|rb: u8|
                        cycle_model(old(self)@, input.keys@, input.decrement_timer, rb) == Err::<
                            Chip8State,
                            Fault,
                        >(f)
                },
            },
    {
        let ghost pre = self@;
        let saved_state = self.state;
        self.state = CPUState::Running;

        // Fetch: both instruction bytes must lie inside memory.
        if self.pc >= 4095 {
            self.state = saved_state;
            proof {
                assert(self@ =~= pre);
            }
            return Err(Fault::AddressOutOfRange);
        }
        let b0 = self.mem[self.pc as usize];
        let b1 = self.mem[self.pc as usize + 1];
        let instruction: u16 = ((b0 as u16) << 8) | (b1 as u16);
        let fetch_pc = self.pc;
        self.pc = self.pc + 2;
        let ghost m1 = self@;
        proof {
            assert(m1 =~= (Chip8State { pc: (pre.pc + 2) as u16, status: CPUState::Running, ..pre }));
            assert(instruction >> 12 <= 0xF) by (bit_vector);
        }

        // Decode and execute: the top nibble picks the family.
        let opcode = instruction >> 12;
        let res: Result<(), Fault> = match opcode {
            0x0 => self.opcode_0(instruction),
            0x1 => {
                self.opcode_1(instruction);
                Ok(())
            },
            0x2 => self.opcode_2(instruction),
            0x3 => {
                self.opcode_3(instruction);
                Ok(())
            },
            0x4 => {
                self.opcode_4(instruction);
                Ok(())
            },
            0x5 => {
                self.opcode_5(instruction);
                Ok(())
            },
            0x6 => {
                self.opcode_6(instruction);
                Ok(())
            },
            0x7 => {
                self.opcode_7(instruction);
                Ok(())
            },
            0x8 => self.opcode_8(instruction),
            0x9 => {
                self.opcode_9(instruction);
                Ok(())
            },
            0xA => {
                self.opcode_a(instruction);
                Ok(())
            },
            0xB => {
                self.opcode_b(instruction);
                Ok(())
            },
            0xC => {
                self.opcode_c(instruction);
                Ok(())
            },
            0xD => self.opcode_d(instruction),
            0xE => self.opcode_e(instruction, &input.keys),
            _ => self.opcode_f(instruction, &input.keys),
        };

        match res {
            Ok(()) => {
                let ghost m2 = self@;
                proof {
                    let ghost keys = input.keys@;
                    let ghost rbw = if op_family(instruction) == 0xC {
                        choose|rb: u8| m2 == step_c(m1, instruction, rb)
                    } else {
                        0u8
                    };
                    assert(exec_instr(m1, instruction, keys, rbw) == Ok::<Chip8State, Fault>(m2));
                }

                // Timer update: each timer loses one on a tick, never below 0.
                if input.decrement_timer {
                    if self.delay_timer > 0 {
                        self.delay_timer = self.delay_timer - 1;
                    }
                    if self.sound_timer > 0 {
                        self.sound_timer = self.sound_timer - 1;
                    }
                }
                proof {
                    let ghost keys = input.keys@;
                    let ghost tick = input.decrement_timer;
                    let ghost rbw = choose|rb: u8|
                        exec_instr(m1, instruction, keys, rb) == Ok::<Chip8State, Fault>(m2);
                    assert(self@ =~= tick_timers(m2, tick));
                    assert(cycle_model(pre, keys, tick, rbw) == Ok::<Chip8State, Fault>(self@));
                }
                Ok(CycleOutput { state: self.state, gfx: self.gfx, beep: self.sound_timer != 0 })
            },
            Err(f) => {
                self.pc = fetch_pc;
                self.state = saved_state;
                proof {
                    assert(self@ =~= pre);
                }
                Err(f)
            },
        }
    }

    /// Value of data register `x`.
    pub fn reg(&self, x: usize) -> (r: u8)
        requires
            x < 16,
        ensures
            r == self@.v[x as int],
    {
        self.v[x]
    }

    /// Current program counter.
    pub fn pc(&self) -> (r: u16)
        ensures
            r == self@.pc,
    {
        self.pc
    }

    /// Current value of the address register I.
    pub fn index_reg(&self) -> (r: u16)
        ensures
            r == self@.i,
    {
        self.i
    }

    /// Current value of the delay timer.
    pub fn delay(&self) -> (r: u8)
        ensures
            r == self@.delay,
    {
        self.delay_timer
    }

    /// Current value of the sound timer.
    pub fn sound(&self) -> (r: u8)
        ensures
            r == self@.sound,
    {
        self.sound_timer
    }

    /// The memory byte at `addr`.
    pub fn mem_byte(&self, addr: usize) -> (b: u8)
        requires
            addr < 4096,
        ensures
            b == self@.mem[addr as int],
    {
        self.mem[addr]
    }

    /// The framebuffer pixel at column `x` of row `y`.
    pub fn pixel(&self, x: usize, y: usize) -> (p: PixelState)
        requires
            x < 64,
            y < 32,
        ensures
            p == self@.gfx[y * 64 + x],
    {
        self.gfx[y * 64 + x]
    }

    /// Family 0: clear screen (00E0) or return from subroutine (00EE).
    fn opcode_0(&mut self, instruction: u16) -> (r: Result<(), Fault>)
        requires
            old(self).wf(),
            old(self)@.pc >= 2,
        ensures
            final(self).wf(),
            match r {
                Ok(()) => step_0(old(self)@, instruction) == Ok::<Chip8State, Fault>(
                    final(self)@,
                ),
                Err(f) => step_0(old(self)@, instruction) == Err::<Chip8State, Fault>(f)
                    && final(self)@ == old(self)@,
            },
    {
        if instruction == 0x00E0 {
            self.gfx = [PixelState::Off; 2048];
            self.state = CPUState::RunningDraw;
            proof {
                assert(self@.gfx =~= Seq::new(old(self)@.gfx.len(), |p: int| PixelState::Off));
                assert(self@ =~= (Chip8State {
                    gfx: Seq::new(old(self)@.gfx.len(), |p: int| PixelState::Off),
                    status: CPUState::RunningDraw,
                    ..old(self)@
                }));
            }
            Ok(())
        } else if instruction == 0x00EE {
            if self.sp == 0 {
                return Err(Fault::StackUnderflow);
            }
            self.pc = self.stack[self.sp];
            self.sp = self.sp - 1;
            Ok(())
        } else {
            Err(Fault::UnknownOpcode { instruction, address: self.pc - 2 })
        }
    }

    /// 2NNN: call the subroutine at NNN.
    fn opcode_2(&mut self, instruction: u16) -> (r: Result<(), Fault>)
        requires
            old(self).wf(),
        ensures
            final(self).wf(),
            match r {
                Ok(()) => step_2(old(self)@, instruction) == Ok::<Chip8State, Fault>(
                    final(self)@,
                ),
                Err(f) => step_2(old(self)@, instruction) == Err::<Chip8State, Fault>(f)
                    && final(self)@ == old(self)@,
            },
    {
        if self.sp >= 15 {
            return Err(Fault::StackOverflow);
        }
        self.sp = self.sp + 1;
        self.stack[self.sp] = self.pc;
        self.pc = instruction & 0x0FFF;
        Ok(())
    }

    /// Family 8: arithmetic and bitwise operations between VX and VY.
    fn opcode_8(&mut self, instruction: u16) -> (r: Result<(), Fault>)
        requires
            old(self)@.pc >= 2,
        ensures
            match r {
                Ok(()) => step_8(old(self)@, instruction) == Ok::<Chip8State, Fault>(
                    final(self)@,
                ),
                Err(f) => step_8(old(self)@, instruction) == Err::<Chip8State, Fault>(f)
                    && final(self)@ == old(self)@,
            },
    {
        let x = get_x(instruction);
        let y = get_y(instruction);
        match instruction & 0x000F {
            0x0 => {
                let vy = self.v[y];
                self.v[x] = vy;
                Ok(())
            },
            0x1 => {
                let val = self.v[x] | self.v[y];
                self.v[x] = val;
                Ok(())
            },
            0x2 => {
                let val = self.v[x] & self.v[y];
                self.v[x] = val;
                Ok(())
            },
            0x3 => {
                let val = self.v[x] ^ self.v[y];
                self.v[x] = val;
                Ok(())
            },
            0x4 => {
                // Wrapping add; VF reports the carry after the sum lands.
                let temp_vx = self.v[x];
                let sum = self.v[x].wrapping_add(self.v[y]);
                self.v[x] = sum;
                let flag: u8 = if self.v[x] < temp_vx {
                    1
                } else {
                    0
                };
                self.v[0xF] = flag;
                Ok(())
            },
            0x5 => {
                // Wrapping subtract; VF = 0 reports the borrow.
                let temp_vx = self.v[x];
                let diff = self.v[x].wrapping_sub(self.v[y]);
                self.v[x] = diff;
                let flag: u8 = if self.v[x] > temp_vx {
                    0
                } else {
                    1
                };
                self.v[0xF] = flag;
                Ok(())
            },
            0x6 => {
                // The dropped bit goes to VF before the shift lands, so when
                // X is F the shift reads the flag.
                let flag = self.v[x] & 0x1;
                self.v[0xF] = flag;
                let shifted = self.v[x] >> 1u8;
                self.v[x] = shifted;
                Ok(())
            },
            0x7 => {
                // VX = VY - VX; VF = 0 reports the borrow, read after the
                // difference lands.
                let diff = self.v[y].wrapping_sub(self.v[x]);
                self.v[x] = diff;
                let flag: u8 = if self.v[x] > self.v[y] {
                    0
                } else {
                    1
                };
                self.v[0xF] = flag;
                Ok(())
            },
            0xE => {
                // As for 0x6, with the top bit and a left shift.
                let flag = (self.v[x] & 0x80) >> 7u8;
                self.v[0xF] = flag;
                let shifted = self.v[x] << 1u8;
                self.v[x] = shifted;
                Ok(())
            },
            _ => Err(Fault::UnknownOpcode { instruction, address: self.pc - 2 }),
        }
    }

    /// Family E: skip on the state of the key named by VX.
    fn opcode_e(&mut self, instruction: u16, keys: &[KeyState; 16]) -> (r: Result<(), Fault>)
        requires
            old(self)@.pc >= 2,
            old(self)@.pc <= 0xFFFD,
        ensures
            match r {
                Ok(()) => step_e(old(self)@, instruction, keys@) == Ok::<Chip8State, Fault>(
                    final(self)@,
                ),
                Err(f) => step_e(old(self)@, instruction, keys@) == Err::<Chip8State, Fault>(f)
                    && final(self)@ == old(self)@,
            },
    {
        let x = get_x(instruction);
        match instruction & 0x00FF {
            0x9E => {
                let vx = self.v[x];
                if vx > 15 {
                    return Err(Fault::KeyOutOfRange);
                }
                if keys[vx as usize] == KeyState::Pressed {
                    self.pc = self.pc + 2;
                }
                Ok(())
            },
            0xA1 => {
                let vx = self.v[x];
                if vx > 15 {
                    return Err(Fault::KeyOutOfRange);
                }
                if keys[vx as usize] == KeyState::NotPressed {
                    self.pc = self.pc + 2;
                }
                Ok(())
            },
            _ => Err(Fault::UnknownOpcode { instruction, address: self.pc - 2 }),
        }
    }

    /// DXYN: XOR-draw an N-row sprite from memory at I, clipped at the
    /// screen edges; VF reports whether any set sprite bit landed on a pixel
    /// that was already on.
    #[verifier::loop_isolation(false)]
    #[verifier::rlimit(60)]
    fn opcode_d(&mut self, instruction: u16) -> (r: Result<(), Fault>)
        ensures
            match r {
                Ok(()) => step_d(old(self)@, instruction) == Ok::<Chip8State, Fault>(
                    final(self)@,
                ),
                Err(f) => step_d(old(self)@, instruction) == Err::<Chip8State, Fault>(f)
                    && final(self)@ == old(self)@,
            },
    {
        let x = get_x(instruction);
        let y = get_y(instruction);
        let n = get_n(instruction);
        let vx = (self.v[x] as usize) % 64;
        let vy = (self.v[y] as usize) % 32;
        let row_end = if n < 32 - vy {
            n
        } else {
            32 - vy
        };
        let col_end = if 8 < 64 - vx {
            8
        } else {
            64 - vx
        };
        if row_end > 0 && self.i as usize + row_end > 4096 {
            return Err(Fault::AddressOutOfRange);
        }
        let ghost m = old(self)@;
        let ghost sprite = if row_end > 0 {
            m.mem.subrange(m.i as int, m.i as int + row_end as int)
        } else {
            Seq::<u8>::empty()
        };
        proof {
            assert(sprite.len() == row_end);
        }
        self.v[0xF] = 0;
        let mut row: usize = 0;
        while row < row_end
            invariant
                row <= row_end,
                forall|p: int|
                    0 <= p < 2048 ==> self.gfx@[p] == drawn_upto(
                        m.gfx,
                        sprite,
                        vx as int,
                        vy as int,
                        col_end as int,
                        row as int,
                        0,
                        p,
                    ),
                self.v@ == m.v.update(
                    15,
                    if hit_upto(m.gfx, sprite, vx as int, vy as int, col_end as int, row as int, 0) {
                        1u8
                    } else {
                        0u8
                    },
                ),
                self.mem == old(self).mem,
                self.pc == old(self).pc,
                self.i == old(self).i,
                self.delay_timer == old(self).delay_timer,
                self.sound_timer == old(self).sound_timer,
                self.stack == old(self).stack,
                self.sp == old(self).sp,
                self.state == old(self).state,
            decreases row_end - row,
        {
            let sprite_data = self.mem[self.i as usize + row];
            proof {
                assert(sprite_data == sprite[row as int]);
            }
            let mut col: usize = 0;
            while col < col_end
                invariant
                    col <= col_end,
                    row < row_end,
                    forall|p: int|
                        0 <= p < 2048 ==> self.gfx@[p] == drawn_upto(
                            m.gfx,
                            sprite,
                            vx as int,
                            vy as int,
                            col_end as int,
                            row as int,
                            col as int,
                            p,
                        ),
                    self.v@ == m.v.update(
                        15,
                        if hit_upto(
                            m.gfx,
                            sprite,
                            vx as int,
                            vy as int,
                            col_end as int,
                            row as int,
                            col as int,
                        ) {
                            1u8
                        } else {
                            0u8
                        },
                    ),
                    self.mem == old(self).mem,
                    self.pc == old(self).pc,
                    self.i == old(self).i,
                    self.delay_timer == old(self).delay_timer,
                    self.sound_timer == old(self).sound_timer,
                    self.stack == old(self).stack,
                    self.sp == old(self).sp,
                    self.state == old(self).state,
                decreases col_end - col,
            {
                let sprite_on = (1u8 << (7 - col) as u8) & sprite_data != 0;
                let gfx_index = (vy + row) * 64 + (vx + col);
                let pix_on = self.gfx[gfx_index] == PixelState::On;
                let ghost gpre = self.gfx@;
                proof {
                    assert(gfx_index as int / 64 == vy + row && gfx_index as int % 64 == vx + col)
                        by (nonlinear_arith)
                        requires
                            gfx_index == (vy + row) * 64 + (vx + col),
                            0 <= vx + col < 64,
                            0 <= vy + row,
                    ;
                    assert(sprite_on == sprite_bit(sprite[row as int], col as int));
                }
                if sprite_on && pix_on {
                    self.v[0xF] = 0x1;
                }
                self.gfx[gfx_index] = if sprite_on ^ pix_on {
                    PixelState::On
                } else {
                    PixelState::Off
                };
                proof {
                    let vxi = vx as int;
                    let vyi = vy as int;
                    let cols = col_end as int;
                    let rowi = row as int;
                    let coli = col as int;
                    let p0 = gfx_index as int;
                    lemma_hit_next_cell(m.gfx, sprite, vxi, vyi, cols, rowi, coli);
                    assert(gpre[p0] == m.gfx[p0]);
                    assert forall|p: int| 0 <= p < 2048 implies self.gfx@[p] == drawn_upto(
                        m.gfx,
                        sprite,
                        vxi,
                        vyi,
                        cols,
                        rowi,
                        coli + 1,
                        p,
                    ) by {
                        assert(p == 64 * (p / 64) + p % 64 && 0 <= p % 64 < 64) by (nonlinear_arith)
                            requires
                                0 <= p < 2048,
                        ;
                        if p != p0 {
                            assert(!(p / 64 - vyi == rowi && p % 64 - vxi == coli));
                        }
                    };
                }
                col += 1;
            }
            proof {
                lemma_hit_next_row(
                    m.gfx,
                    sprite,
                    vx as int,
                    vy as int,
                    col_end as int,
                    row as int,
                );
                assert forall|p: int| 0 <= p < 2048 implies drawn_upto(
                    m.gfx,
                    sprite,
                    vx as int,
                    vy as int,
                    col_end as int,
                    row as int,
                    col_end as int,
                    p,
                ) == drawn_upto(
                    m.gfx,
                    sprite,
                    vx as int,
                    vy as int,
                    col_end as int,
                    row as int + 1,
                    0,
                    p,
                ) by {
                    assert(0 <= p % 64 < 64) by (nonlinear_arith)
                        requires
                            0 <= p < 2048,
                    ;
                };
            }
            row += 1;
        }
        self.state = CPUState::RunningDraw;
        proof {
            lemma_hit_complete(m.gfx, sprite, vx as int, vy as int, col_end as int);
            assert forall|p: int| 0 <= p < 2048 implies self@.gfx[p] == draw_gfx(
                m.gfx,
                sprite,
                vx as int,
                vy as int,
                col_end as int,
            )[p] by {
                assert(0 <= p % 64 < 64) by (nonlinear_arith)
                    requires
                        0 <= p < 2048,
                ;
            };
            assert(self@.gfx =~= draw_gfx(m.gfx, sprite, vx as int, vy as int, col_end as int));
            assert(self@ =~= (Chip8State {
                gfx: draw_gfx(m.gfx, sprite, vx as int, vy as int, col_end as int),
                v: m.v.update(
                    15,
                    if draw_collision(m.gfx, sprite, vx as int, vy as int, col_end as int) {
                        1u8
                    } else {
                        0u8
                    },
                ),
                status: CPUState::RunningDraw,
                ..m
            }));
        }
        Ok(())
    }

    /// Family F: timers, key wait, address arithmetic and memory transfers.
    #[verifier::loop_isolation(false)]
    fn opcode_f(&mut self, instruction: u16, keys: &[KeyState; 16]) -> (r: Result<(), Fault>)
        requires
            old(self)@.pc >= 2,
        ensures
            match r {
                Ok(()) => step_f(old(self)@, instruction, keys@) == Ok::<Chip8State, Fault>(
                    final(self)@,
                ),
                Err(f) => step_f(old(self)@, instruction, keys@) == Err::<Chip8State, Fault>(f)
                    && final(self)@ == old(self)@,
            },
    {
        let x = get_x(instruction);
        match instruction & 0x00FF {
            // FX07: VX = delay timer.
            0x07 => {
                let d = self.delay_timer;
                self.v[x] = d;
                Ok(())
            },
            // FX0A: wait for a key; with none pressed, rewind PC over the
            // fetch so the same instruction runs again next cycle.
            0x0A => {
                let mut k: usize = 0;
                while k < 16
                    invariant
                        k <= 16,
                        self == old(self),
                        first_pressed(keys@) == first_pressed_from(keys@, k as int),
                    decreases 16 - k,
                {
                    if keys[k] == KeyState::Pressed {
                        self.v[x] = k as u8;
                        return Ok(());
                    }
                    k += 1;
                }
                self.pc = self.pc - 2;
                Ok(())
            },
            // FX15: delay timer = VX.
            0x15 => {
                self.delay_timer = self.v[x];
                Ok(())
            },
            // FX18: sound timer = VX.
            0x18 => {
                self.sound_timer = self.v[x];
                Ok(())
            },
            // FX1E: I += VX; I must stay inside the 12-bit address space.
            0x1E => {
                let sum = self.i as u32 + self.v[x] as u32;
                if sum > 0xFFF {
                    return Err(Fault::AddressOutOfRange);
                }
                self.i = sum as u16;
                Ok(())
            },
            // FX29: I = address of the glyph for the low nibble of VX.
            0x29 => {
                self.i = 5 * ((self.v[x] & 0xF) as u16) + 0x50;
                Ok(())
            },
            // FX33: three-digit BCD of VX at I, I+1, I+2.
            0x33 => {
                if self.i > 4093 {
                    return Err(Fault::AddressOutOfRange);
                }
                let vx = self.v[x];
                let i = self.i as usize;
                self.mem[i] = vx / 100;
                self.mem[i + 1] = vx / 10 % 10;
                self.mem[i + 2] = vx % 10;
                Ok(())
            },
            // FX55: store V0..=VX at I.
            0x55 => {
                if self.i as usize + x > 4095 {
                    return Err(Fault::AddressOutOfRange);
                }
                let i = self.i as usize;
                let mut off: usize = 0;
                while off <= x
                    invariant
                        off <= x + 1,
                        forall|j: int|
                            i <= j < i + off ==> self.mem@[j] == old(self)@.v[j - i],
                        forall|j: int|
                            0 <= j < 4096 && !(i <= j < i + off) ==> self.mem@[j] == old(
                                self,
                            )@.mem[j],
                        self.v == old(self).v,
                        self.gfx == old(self).gfx,
                        self.pc == old(self).pc,
                        self.i == old(self).i,
                        self.delay_timer == old(self).delay_timer,
                        self.sound_timer == old(self).sound_timer,
                        self.stack == old(self).stack,
                        self.sp == old(self).sp,
                        self.state == old(self).state,
                    decreases x + 1 - off,
                {
                    let val = self.v[off];
                    self.mem[i + off] = val;
                    off += 1;
                }
                proof {
                    let m = old(self)@;
                    assert(self@.mem =~= Seq::new(
                        m.mem.len(),
                        |j: int|
                            if m.i <= j <= m.i + op_x(instruction) as int {
                                m.v[j - m.i]
                            } else {
                                m.mem[j]
                            },
                    ));
                }
                Ok(())
            },
            // FX65: load V0..=VX from I.
            0x65 => {
                if self.i as usize + x > 4095 {
                    return Err(Fault::AddressOutOfRange);
                }
                let i = self.i as usize;
                let mut off: usize = 0;
                while off <= x
                    invariant
                        off <= x + 1,
                        forall|j: int| 0 <= j < off ==> self.v@[j] == old(self)@.mem[i + j],
                        forall|j: int|
                            off <= j < 16 ==> self.v@[j] == old(self)@.v[j],
                        self.mem == old(self).mem,
                        self.gfx == old(self).gfx,
                        self.pc == old(self).pc,
                        self.i == old(self).i,
                        self.delay_timer == old(self).delay_timer,
                        self.sound_timer == old(self).sound_timer,
                        self.stack == old(self).stack,
                        self.sp == old(self).sp,
                        self.state == old(self).state,
                    decreases x + 1 - off,
                {
                    let val = self.mem[i + off];
                    self.v[off] = val;
                    off += 1;
                }
                proof {
                    let m = old(self)@;
                    assert(self@.v =~= Seq::new(
                        m.v.len(),
                        |j: int|
                            if 0 <= j <= op_x(instruction) as int {
                                m.mem[m.i + j]
                            } else {
                                m.v[j]
                            },
                    ));
                }
                Ok(())
            },
            _ => Err(Fault::UnknownOpcode { instruction, address: self.pc - 2 }),
        }
    }

    /// 1NNN: jump to NNN.
    fn opcode_1(&mut self, instruction: u16)
        ensures
            final(self)@ == step_1(old(self)@, instruction),
    {
        self.pc = instruction & 0x0FFF;
    }

    /// 3XNN: skip the next instruction when VX == NN.
    fn opcode_3(&mut self, instruction: u16)
        requires
            old(self)@.pc <= 0xFFFD,
        ensures
            final(self)@ == step_3(old(self)@, instruction),
    {
        let x = get_x(instruction);
        let nn = instruction as u8;
        if self.v[x] == nn {
            self.pc = self.pc + 2;
        }
    }

    /// 4XNN: skip the next instruction when VX != NN.
    fn opcode_4(&mut self, instruction: u16)
        requires
            old(self)@.pc <= 0xFFFD,
        ensures
            final(self)@ == step_4(old(self)@, instruction),
    {
        let x = get_x(instruction);
        let nn = instruction as u8;
        if self.v[x] != nn {
            self.pc = self.pc + 2;
        }
    }

    /// 5XY0: skip the next instruction when VX == VY.
    fn opcode_5(&mut self, instruction: u16)
        requires
            old(self)@.pc <= 0xFFFD,
        ensures
            final(self)@ == step_5(old(self)@, instruction),
    {
        let x = get_x(instruction);
        let y = get_y(instruction);
        if self.v[x] == self.v[y] {
            self.pc = self.pc + 2;
        }
    }

    /// 6XNN: set VX to NN.
    fn opcode_6(&mut self, instruction: u16)
        ensures
            final(self)@ == step_6(old(self)@, instruction),
    {
        let x = get_x(instruction);
        let nn = instruction as u8;
        self.v[x] = nn;
    }

    /// 7XNN: add NN to VX, wrapping; VF is not touched.
    fn opcode_7(&mut self, instruction: u16)
        ensures
            final(self)@ == step_7(old(self)@, instruction),
    {
        let x = get_x(instruction);
        let nn = instruction as u8;
        let sum = self.v[x].wrapping_add(nn);
        self.v[x] = sum;
    }

    /// 9XY0: skip the next instruction when VX != VY.
    fn opcode_9(&mut self, instruction: u16)
        requires
            old(self)@.pc <= 0xFFFD,
        ensures
            final(self)@ == step_9(old(self)@, instruction),
    {
        let x = get_x(instruction);
        let y = get_y(instruction);
        if self.v[x] != self.v[y] {
            self.pc = self.pc + 2;
        }
    }

    /// ANNN: set I to NNN.
    fn opcode_a(&mut self, instruction: u16)
        ensures
            final(self)@ == step_a(old(self)@, instruction),
    {
        self.i = instruction & 0x0FFF;
    }

    /// BNNN: jump to NNN + V0.
    fn opcode_b(&mut self, instruction: u16)
        ensures
            final(self)@ == step_b(old(self)@, instruction),
    {
        let nnn = get_nnn(instruction);
        self.pc = nnn.wrapping_add(self.v[0] as u16);
    }

    /// CXNN: set VX to a random byte masked with NN.
    fn opcode_c(&mut self, instruction: u16)
        ensures
            exists|rb: u8| final(self)@ == step_c(old(self)@, instruction, rb),
    {
        let x = get_x(instruction);
        let nn = instruction as u8;
        let rand_val: u8 = random_byte();
        self.v[x] = rand_val & nn;
        proof {
            assert(self@ == step_c(old(self)@, instruction, rand_val));
        }
    }
}

/// The framebuffer midway through a draw: the cells of `sprite` strictly
/// before row `row`, and before column `col` within row `row`, have landed;
/// `p` names a pixel of the result.
spec fn drawn_upto(
    gfx0: Seq<PixelState>,
    sprite: Seq<u8>,
    vx: int,
    vy: int,
    cols: int,
    row: int,
    col: int,
    p: int,
) -> PixelState {
    let r = p / 64 - vy;
    let c = p % 64 - vx;
    if 0 <= r < sprite.len() && 0 <= c < cols && (r < row || (r == row && c < col)) && sprite_bit(
        sprite[r],
        c,
    ) {
        flip(gfx0[p])
    } else {
        gfx0[p]
    }
}

/// Whether a collision has been seen midway through a draw, over the same
/// prefix of cells as [`drawn_upto`].
spec fn hit_upto(
    gfx0: Seq<PixelState>,
    sprite: Seq<u8>,
    vx: int,
    vy: int,
    cols: int,
    row: int,
    col: int,
) -> bool {
    exists|r: int, c: int|
        #![trigger sprite_bit(sprite[r], c)]
        0 <= r < sprite.len() && 0 <= c < cols && (r < row || (r == row && c < col)) && sprite_bit(
            sprite[r],
            c,
        ) && gfx0[(vy + r) * 64 + (vx + c)] == PixelState::On
}

/// Processing one more cell extends the collision test by exactly that cell.
proof fn lemma_hit_next_cell(
    gfx0: Seq<PixelState>,
    sprite: Seq<u8>,
    vx: int,
    vy: int,
    cols: int,
    row: int,
    col: int,
)
    requires
        0 <= row < sprite.len(),
        0 <= col < cols,
    ensures
        hit_upto(gfx0, sprite, vx, vy, cols, row, col + 1) == (hit_upto(
            gfx0,
            sprite,
            vx,
            vy,
            cols,
            row,
            col,
        ) || (sprite_bit(sprite[row], col) && gfx0[(vy + row) * 64 + (vx + col)]
            == PixelState::On)),
{
    if hit_upto(gfx0, sprite, vx, vy, cols, row, col + 1) {
        let (r, c) = choose|r: int, c: int|
            0 <= r < sprite.len() && 0 <= c < cols && (r < row || (r == row && c < col + 1))
                && #[trigger] sprite_bit(sprite[r], c) && gfx0[(vy + r) * 64 + (vx + c)]
                == PixelState::On;
        if !(r == row && c == col) {
            assert(r < row || (r == row && c < col));
            assert(hit_upto(gfx0, sprite, vx, vy, cols, row, col));
        }
    }
    if hit_upto(gfx0, sprite, vx, vy, cols, row, col) {
        let (r, c) = choose|r: int, c: int|
            0 <= r < sprite.len() && 0 <= c < cols && (r < row || (r == row && c < col))
                && #[trigger] sprite_bit(sprite[r], c) && gfx0[(vy + r) * 64 + (vx + c)]
                == PixelState::On;
        assert(hit_upto(gfx0, sprite, vx, vy, cols, row, col + 1));
    }
    if sprite_bit(sprite[row], col) && gfx0[(vy + row) * 64 + (vx + col)] == PixelState::On {
        assert(hit_upto(gfx0, sprite, vx, vy, cols, row, col + 1));
    }
}

/// Finishing a row is the same prefix of cells as standing at the start of
/// the next row.
proof fn lemma_hit_next_row(
    gfx0: Seq<PixelState>,
    sprite: Seq<u8>,
    vx: int,
    vy: int,
    cols: int,
    row: int,
)
    ensures
        hit_upto(gfx0, sprite, vx, vy, cols, row, cols) == hit_upto(
            gfx0,
            sprite,
            vx,
            vy,
            cols,
            row + 1,
            0,
        ),
{
    if hit_upto(gfx0, sprite, vx, vy, cols, row, cols) {
        let (r, c) = choose|r: int, c: int|
            0 <= r < sprite.len() && 0 <= c < cols && (r < row || (r == row && c < cols))
                && #[trigger] sprite_bit(sprite[r], c) && gfx0[(vy + r) * 64 + (vx + c)]
                == PixelState::On;
        assert(hit_upto(gfx0, sprite, vx, vy, cols, row + 1, 0));
    }
    if hit_upto(gfx0, sprite, vx, vy, cols, row + 1, 0) {
        let (r, c) = choose|r: int, c: int|
            0 <= r < sprite.len() && 0 <= c < cols && (r < row + 1 || (r == row + 1 && c < 0))
                && #[trigger] sprite_bit(sprite[r], c) && gfx0[(vy + r) * 64 + (vx + c)]
                == PixelState::On;
        assert(hit_upto(gfx0, sprite, vx, vy, cols, row, cols));
    }
}

/// After the last row the prefix covers the whole sprite, so the collision
/// test is exactly [`draw_collision`].
proof fn lemma_hit_complete(gfx0: Seq<PixelState>, sprite: Seq<u8>, vx: int, vy: int, cols: int)
    ensures
        hit_upto(gfx0, sprite, vx, vy, cols, sprite.len() as int, 0) == draw_collision(
            gfx0,
            sprite,
            vx,
            vy,
            cols,
        ),
{
    if hit_upto(gfx0, sprite, vx, vy, cols, sprite.len() as int, 0) {
        let (r, c) = choose|r: int, c: int|
            0 <= r < sprite.len() && 0 <= c < cols && (r < sprite.len() || (r == sprite.len() && c
                < 0)) && #[trigger] sprite_bit(sprite[r], c) && gfx0[(vy + r) * 64 + (vx + c)]
                == PixelState::On;
        assert(draw_collision(gfx0, sprite, vx, vy, cols));
    }
    if draw_collision(gfx0, sprite, vx, vy, cols) {
        let (r, c) = choose|r: int, c: int|
            0 <= r < sprite.len() && 0 <= c < cols && #[trigger] sprite_bit(sprite[r], c) && gfx0[(
            vy + r) * 64 + (vx + c)] == PixelState::On;
        assert(hit_upto(gfx0, sprite, vx, vy, cols, sprite.len() as int, 0));
    }
}

/// Register index X of an instruction.
fn get_x(instruction: u16) -> (x: usize)
    ensures
        x == op_x(instruction) as usize,
        x < 16,
{
    proof {
        assert((instruction & 0x0F00) >> 8 < 16) by (bit_vector);
    }
    ((instruction & 0x0F00) >> 8) as usize
}

/// Nibble N of an instruction.
fn get_n(instruction: u16) -> (n: usize)
    ensures
        n == op_n(instruction) as usize,
        n < 16,
{
    proof {
        assert(instruction & 0x000F < 16) by (bit_vector);
    }
    (instruction & 0x000F) as usize
}

/// Register index Y of an instruction.
fn get_y(instruction: u16) -> (y: usize)
    ensures
        y == op_y(instruction) as usize,
        y < 16,
{
    proof {
        assert((instruction & 0x00F0) >> 4 < 16) by (bit_vector);
    }
    ((instruction & 0x00F0) >> 4) as usize
}

/// Address NNN of an instruction.
fn get_nnn(instruction: u16) -> (nnn: u16)
    ensures
        nnn == op_nnn(instruction),
        nnn <= 0xFFF,
{
    proof {
        assert(instruction & 0x0FFF <= 0xFFF) by (bit_vector);
    }
    instruction & 0x0FFF
}

/// Relies on `rand::random::<u8>`: draws one byte from the thread-local
/// generator. Nothing is assumed of its value.
#[verifier::external_body]
fn random_byte() -> u8 {
    rand::random()
}

} // verus!
