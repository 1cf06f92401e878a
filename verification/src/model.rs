//! The mathematical model of the CHIP-8 machine.
//!
//! [`Chip8State`] is the abstract value of a [`crate::cpu::CPU`]: every field
//! of the executable machine appears here as a mathematical sequence or a
//! plain integer. The spec functions in this module define one cycle of the
//! machine — fetch, decode, execute, timer update — as a total function from
//! an abstract state to either the next abstract state or a
//! [`crate::cpu::Fault`]. A fault never changes the machine: the cycle that
//! reports one leaves the state exactly as it found it.

use vstd::prelude::*;

use crate::cpu::CPUState;
use crate::cpu::Fault;
use crate::cpu::KeyState;
use crate::cpu::PixelState;

verus! {

/// Abstract value of the whole machine.
#[verifier::ext_equal]
pub ghost struct Chip8State {
    /// The 4096 bytes of main memory.
    pub mem: Seq<u8>,
    /// The 64 x 32 framebuffer, row-major.
    pub gfx: Seq<PixelState>,
    /// The sixteen data registers V0 to VF.
    pub v: Seq<u8>,
    /// Program counter: address of the next instruction to fetch.
    pub pc: u16,
    /// Address register I.
    pub i: u16,
    /// Delay timer.
    pub delay: u8,
    /// Sound timer.
    pub sound: u8,
    /// The sixteen call-stack slots.
    pub stack: Seq<u16>,
    /// Stack pointer: index of the top occupied slot, 0 when empty.
    pub sp: usize,
    /// Machine status of the most recent cycle.
    pub status: CPUState,
}

/// The sizes the machine is built with: they never change over its life.
pub open spec fn state_wf(m: Chip8State) -> bool {
    &&& m.mem.len() == 4096
    &&& m.gfx.len() == 2048
    &&& m.v.len() == 16
    &&& m.stack.len() == 16
    &&& m.sp <= 15
}

/// The big-endian 16-bit instruction formed from two memory bytes.
pub open spec fn instr_of(b0: u8, b1: u8) -> u16 {
    ((b0 as u16) << 8) | (b1 as u16)
}

/// Top 4 bits: the opcode family.
pub open spec fn op_family(instr: u16) -> u16 {
    instr >> 12
}

/// Bits 8..11: the register index X.
pub open spec fn op_x(instr: u16) -> u16 {
    (instr & 0x0F00) >> 8
}

/// Bits 4..7: the register index Y.
pub open spec fn op_y(instr: u16) -> u16 {
    (instr & 0x00F0) >> 4
}

/// Low 4 bits: the nibble N.
pub open spec fn op_n(instr: u16) -> u16 {
    instr & 0x000F
}

/// Low byte: the immediate NN.
pub open spec fn op_nn(instr: u16) -> u8 {
    instr as u8
}

/// Low 12 bits: the address NNN.
pub open spec fn op_nnn(instr: u16) -> u16 {
    instr & 0x0FFF
}

/// Low byte: the sub-opcode of the E and F families.
pub open spec fn op_sub(instr: u16) -> u16 {
    instr & 0x00FF
}

/// The fault reported for an instruction outside the defined table. `m` is
/// the state after the fetch advanced PC, so the instruction's own address is
/// two bytes back.
pub open spec fn unknown_opcode(m: Chip8State, instr: u16) -> Fault {
    Fault::UnknownOpcode { instruction: instr, address: (m.pc - 2) as u16 }
}

/// The state `m` with register `x` set to `val`.
pub open spec fn set_v(m: Chip8State, x: int, val: u8) -> Chip8State {
    Chip8State { v: m.v.update(x, val), ..m }
}

/// Family 0: clear screen (00E0) or return from subroutine (00EE).
pub open spec fn step_0(m: Chip8State, instr: u16) -> Result<Chip8State, Fault> {
    if instr == 0x00E0 {
        Ok(Chip8State {
            gfx: Seq::new(m.gfx.len(), |p: int| PixelState::Off),
            status: CPUState::RunningDraw,
            ..m
        })
    } else if instr == 0x00EE {
        if m.sp == 0 {
            Err(Fault::StackUnderflow)
        } else {
            Ok(Chip8State { pc: m.stack[m.sp as int], sp: (m.sp - 1) as usize, ..m })
        }
    } else {
        Err(unknown_opcode(m, instr))
    }
}

/// 1NNN: jump to NNN.
pub open spec fn step_1(m: Chip8State, instr: u16) -> Chip8State {
    Chip8State { pc: op_nnn(instr), ..m }
}

/// 2NNN: call the subroutine at NNN. The stack pointer moves to the next
/// slot before the return address is stored, so slot 0 is never written and
/// at most fifteen calls can be pending.
pub open spec fn step_2(m: Chip8State, instr: u16) -> Result<Chip8State, Fault> {
    if m.sp >= 15 {
        Err(Fault::StackOverflow)
    } else {
        Ok(Chip8State {
            sp: (m.sp + 1) as usize,
            stack: m.stack.update(m.sp + 1, m.pc),
            pc: op_nnn(instr),
            ..m
        })
    }
}

/// The state `m` with PC advanced over one instruction when `skip` holds.
pub open spec fn skip_if(m: Chip8State, skip: bool) -> Chip8State {
    if skip {
        Chip8State { pc: (m.pc + 2) as u16, ..m }
    } else {
        m
    }
}

/// 3XNN: skip the next instruction when VX == NN.
pub open spec fn step_3(m: Chip8State, instr: u16) -> Chip8State {
    skip_if(m, m.v[op_x(instr) as int] == op_nn(instr))
}

/// 4XNN: skip the next instruction when VX != NN.
pub open spec fn step_4(m: Chip8State, instr: u16) -> Chip8State {
    skip_if(m, m.v[op_x(instr) as int] != op_nn(instr))
}

/// 5XY0: skip the next instruction when VX == VY.
pub open spec fn step_5(m: Chip8State, instr: u16) -> Chip8State {
    skip_if(m, m.v[op_x(instr) as int] == m.v[op_y(instr) as int])
}

/// 6XNN: set VX to NN.
pub open spec fn step_6(m: Chip8State, instr: u16) -> Chip8State {
    set_v(m, op_x(instr) as int, op_nn(instr))
}

/// 7XNN: add NN to VX, wrapping; VF is not touched.
pub open spec fn step_7(m: Chip8State, instr: u16) -> Chip8State {
    set_v(
        m,
        op_x(instr) as int,
        vstd::wrapping::u8_specs::wrapping_add(m.v[op_x(instr) as int], op_nn(instr)),
    )
}

/// Family 8: arithmetic and bitwise operations between VX and VY. The
/// carry/borrow flag is written to VF after the result lands in VX, so when
/// X is F the flag wins.
pub open spec fn step_8(m: Chip8State, instr: u16) -> Result<Chip8State, Fault> {
    let x = op_x(instr) as int;
    let y = op_y(instr) as int;
    let n = op_n(instr);
    if n == 0x0 {
        Ok(set_v(m, x, m.v[y]))
    } else if n == 0x1 {
        Ok(set_v(m, x, m.v[x] | m.v[y]))
    } else if n == 0x2 {
        Ok(set_v(m, x, m.v[x] & m.v[y]))
    } else if n == 0x3 {
        Ok(set_v(m, x, m.v[x] ^ m.v[y]))
    } else if n == 0x4 {
        // Wrapping add; VF = 1 exactly when the add wrapped.
        let v1 = m.v.update(x, vstd::wrapping::u8_specs::wrapping_add(m.v[x], m.v[y]));
        Ok(Chip8State { v: v1.update(15, if v1[x] < m.v[x] { 1u8 } else { 0u8 }), ..m })
    } else if n == 0x5 {
        // Wrapping subtract; VF = 0 exactly when a borrow occurred.
        let v1 = m.v.update(x, vstd::wrapping::u8_specs::wrapping_sub(m.v[x], m.v[y]));
        Ok(Chip8State { v: v1.update(15, if v1[x] > m.v[x] { 0u8 } else { 1u8 }), ..m })
    } else if n == 0x6 {
        // Undocumented variant: the shift reads VX and ignores VY, and the
        // dropped bit is stored in VF before the shift lands.
        let v1 = m.v.update(15, m.v[x] & 1);
        Ok(Chip8State { v: v1.update(x, v1[x] >> 1u8), ..m })
    } else if n == 0x7 {
        // VX = VY - VX, wrapping; VF = 0 exactly when a borrow occurred.
        let v1 = m.v.update(x, vstd::wrapping::u8_specs::wrapping_sub(m.v[y], m.v[x]));
        Ok(Chip8State { v: v1.update(15, if v1[x] > v1[y] { 0u8 } else { 1u8 }), ..m })
    } else if n == 0xE {
        // Undocumented variant: as for 0x6, with the top bit and a left shift.
        let v1 = m.v.update(15, (m.v[x] & 0x80) >> 7u8);
        Ok(Chip8State { v: v1.update(x, v1[x] << 1u8), ..m })
    } else {
        Err(unknown_opcode(m, instr))
    }
}

/// 9XY0: skip the next instruction when VX != VY.
pub open spec fn step_9(m: Chip8State, instr: u16) -> Chip8State {
    skip_if(m, m.v[op_x(instr) as int] != m.v[op_y(instr) as int])
}

/// ANNN: set I to NNN.
pub open spec fn step_a(m: Chip8State, instr: u16) -> Chip8State {
    Chip8State { i: op_nnn(instr), ..m }
}

/// BNNN: jump to NNN + V0. The sum of a 12-bit address and a byte stays well
/// inside 16 bits, so no wrapping can occur.
pub open spec fn step_b(m: Chip8State, instr: u16) -> Chip8State {
    Chip8State { pc: (op_nnn(instr) + m.v[0]) as u16, ..m }
}

/// CXNN: set VX to a random byte masked with NN. The byte `rb` is the one
/// the generator produced for this cycle.
pub open spec fn step_c(m: Chip8State, instr: u16, rb: u8) -> Chip8State {
    set_v(m, op_x(instr) as int, rb & op_nn(instr))
}

/// Whether the sprite row byte `b` has its pixel at column `c` set
/// (bit 7 is column 0).
pub open spec fn sprite_bit(b: u8, c: int) -> bool {
    (1u8 << ((7 - c) as u8)) & b != 0
}

/// One pixel toggled.
pub open spec fn flip(p: PixelState) -> PixelState {
    if p == PixelState::On {
        PixelState::Off
    } else {
        PixelState::On
    }
}

/// The framebuffer after XOR-drawing `sprite` with its origin at
/// `(vx, vy)`, where only the first `cols` columns of each row land
/// on-screen; every pixel outside that rectangle is untouched.
pub open spec fn draw_gfx(
    gfx: Seq<PixelState>,
    sprite: Seq<u8>,
    vx: int,
    vy: int,
    cols: int,
) -> Seq<PixelState> {
    Seq::new(
        gfx.len(),
        |p: int|
            {
                let py = p / 64;
                let px = p % 64;
                if vy <= py < vy + sprite.len() && vx <= px < vx + cols && sprite_bit(
                    sprite[py - vy],
                    px - vx,
                ) {
                    flip(gfx[p])
                } else {
                    gfx[p]
                }
            },
    )
}

/// Whether some set sprite bit lands on a pixel that is already on.
pub open spec fn draw_collision(
    gfx: Seq<PixelState>,
    sprite: Seq<u8>,
    vx: int,
    vy: int,
    cols: int,
) -> bool {
    exists|r: int, c: int|
        #![trigger sprite_bit(sprite[r], c)]
        0 <= r < sprite.len() && 0 <= c < cols && sprite_bit(sprite[r], c) && gfx[(vy + r) * 64 + (
        vx + c)] == PixelState::On
}

/// DXYN: draw the N-row sprite at memory address I with its origin at
/// (VX mod 64, VY mod 32). Rows and columns past the screen edge are
/// clipped, never wrapped. VF reports a collision. The rows actually drawn
/// must lie inside memory, or the cycle faults.
pub open spec fn step_d(m: Chip8State, instr: u16) -> Result<Chip8State, Fault> {
    let n = op_n(instr) as int;
    let vx = m.v[op_x(instr) as int] as int % 64;
    let vy = m.v[op_y(instr) as int] as int % 32;
    let rows = vstd::math::min(n, 32 - vy);
    let cols = vstd::math::min(8, 64 - vx);
    if rows > 0 && m.i + rows > 4096 {
        Err(Fault::AddressOutOfRange)
    } else {
        let sprite = if rows > 0 {
            m.mem.subrange(m.i as int, m.i + rows)
        } else {
            Seq::<u8>::empty()
        };
        Ok(Chip8State {
            gfx: draw_gfx(m.gfx, sprite, vx, vy, cols),
            v: m.v.update(
                15,
                if draw_collision(m.gfx, sprite, vx, vy, cols) {
                    1u8
                } else {
                    0u8
                },
            ),
            status: CPUState::RunningDraw,
            ..m
        })
    }
}

/// Family E: skip on the state of the key named by VX.
pub open spec fn step_e(m: Chip8State, instr: u16, keys: Seq<KeyState>) -> Result<
    Chip8State,
    Fault,
> {
    let x = op_x(instr) as int;
    let sub = op_sub(instr);
    if sub == 0x9E {
        if m.v[x] > 15 {
            Err(Fault::KeyOutOfRange)
        } else {
            Ok(skip_if(m, keys[m.v[x] as int] == KeyState::Pressed))
        }
    } else if sub == 0xA1 {
        if m.v[x] > 15 {
            Err(Fault::KeyOutOfRange)
        } else {
            Ok(skip_if(m, keys[m.v[x] as int] == KeyState::NotPressed))
        }
    } else {
        Err(unknown_opcode(m, instr))
    }
}

/// The lowest-indexed pressed key at or above index `k`, if any.
pub open spec fn first_pressed_from(keys: Seq<KeyState>, k: int) -> Option<u8>
    decreases 16 - k,
{
    if k < 0 || k >= 16 {
        None
    } else if keys[k] == KeyState::Pressed {
        Some(k as u8)
    } else {
        first_pressed_from(keys, k + 1)
    }
}

/// The lowest-indexed pressed key, if any.
pub open spec fn first_pressed(keys: Seq<KeyState>) -> Option<u8> {
    first_pressed_from(keys, 0)
}

/// Family F: timers, key wait, address arithmetic and memory transfers.
pub open spec fn step_f(m: Chip8State, instr: u16, keys: Seq<KeyState>) -> Result<
    Chip8State,
    Fault,
> {
    let x = op_x(instr) as int;
    let sub = op_sub(instr);
    if sub == 0x07 {
        // FX07: VX = delay timer.
        Ok(set_v(m, x, m.delay))
    } else if sub == 0x0A {
        // FX0A: wait for a key. With none pressed, PC is rewound over the
        // fetch so the same instruction runs again next cycle.
        match first_pressed(keys) {
            Some(k) => Ok(set_v(m, x, k)),
            None => Ok(Chip8State { pc: (m.pc - 2) as u16, ..m }),
        }
    } else if sub == 0x15 {
        // FX15: delay timer = VX.
        Ok(Chip8State { delay: m.v[x], ..m })
    } else if sub == 0x18 {
        // FX18: sound timer = VX.
        Ok(Chip8State { sound: m.v[x], ..m })
    } else if sub == 0x1E {
        // FX1E: I += VX; I must stay inside the 12-bit address space.
        if m.i + m.v[x] > 0xFFF {
            Err(Fault::AddressOutOfRange)
        } else {
            Ok(Chip8State { i: (m.i + m.v[x]) as u16, ..m })
        }
    } else if sub == 0x29 {
        // FX29: I = address of the glyph for the low nibble of VX.
        Ok(Chip8State { i: (0x50 + 5 * ((m.v[x] & 0xF) as u16)) as u16, ..m })
    } else if sub == 0x33 {
        // FX33: three-digit BCD of VX at I, I+1, I+2.
        if m.i + 2 > 4095 {
            Err(Fault::AddressOutOfRange)
        } else {
            Ok(Chip8State {
                mem: m.mem.update(m.i as int, m.v[x] / 100).update(
                    m.i + 1,
                    (m.v[x] / 10) % 10,
                ).update(m.i + 2, m.v[x] % 10),
                ..m
            })
        }
    } else if sub == 0x55 {
        // FX55: store V0..=VX at I.
        if m.i + x > 4095 {
            Err(Fault::AddressOutOfRange)
        } else {
            Ok(Chip8State {
                mem: Seq::new(
                    m.mem.len(),
                    |j: int|
                        if m.i <= j <= m.i + x {
                            m.v[j - m.i]
                        } else {
                            m.mem[j]
                        },
                ),
                ..m
            })
        }
    } else if sub == 0x65 {
        // FX65: load V0..=VX from I.
        if m.i + x > 4095 {
            Err(Fault::AddressOutOfRange)
        } else {
            Ok(Chip8State {
                v: Seq::new(
                    m.v.len(),
                    |j: int|
                        if 0 <= j <= x {
                            m.mem[m.i + j]
                        } else {
                            m.v[j]
                        },
                ),
                ..m
            })
        }
    } else {
        Err(unknown_opcode(m, instr))
    }
}

/// Decode and execute one fetched instruction. `m` already has PC advanced
/// past the instruction and the status reset to `Running`.
pub open spec fn exec_instr(m: Chip8State, instr: u16, keys: Seq<KeyState>, rb: u8) -> Result<
    Chip8State,
    Fault,
> {
    let fam = op_family(instr);
    if fam == 0x0 {
        step_0(m, instr)
    } else if fam == 0x1 {
        Ok(step_1(m, instr))
    } else if fam == 0x2 {
        step_2(m, instr)
    } else if fam == 0x3 {
        Ok(step_3(m, instr))
    } else if fam == 0x4 {
        Ok(step_4(m, instr))
    } else if fam == 0x5 {
        Ok(step_5(m, instr))
    } else if fam == 0x6 {
        Ok(step_6(m, instr))
    } else if fam == 0x7 {
        Ok(step_7(m, instr))
    } else if fam == 0x8 {
        step_8(m, instr)
    } else if fam == 0x9 {
        Ok(step_9(m, instr))
    } else if fam == 0xA {
        Ok(step_a(m, instr))
    } else if fam == 0xB {
        Ok(step_b(m, instr))
    } else if fam == 0xC {
        Ok(step_c(m, instr, rb))
    } else if fam == 0xD {
        step_d(m, instr)
    } else if fam == 0xE {
        step_e(m, instr, keys)
    } else {
        step_f(m, instr, keys)
    }
}

/// Timer update at the end of a cycle: when `tick` is set, each timer is
/// decremented once, saturating at zero; otherwise both are left alone.
pub open spec fn tick_timers(m: Chip8State, tick: bool) -> Chip8State {
    if tick {
        Chip8State {
            delay: if m.delay > 0 {
                (m.delay - 1) as u8
            } else {
                0u8
            },
            sound: if m.sound > 0 {
                (m.sound - 1) as u8
            } else {
                0u8
            },
            ..m
        }
    } else {
        m
    }
}

/// The instruction the next cycle will fetch.
pub open spec fn fetched(m: Chip8State) -> u16 {
    instr_of(m.mem[m.pc as int], m.mem[m.pc + 1])
}

/// One whole machine cycle: reset the status, fetch big-endian at PC,
/// advance PC by two, execute, then update the timers. `rb` is the byte the
/// random generator produced, consulted only by the C family.
pub open spec fn cycle_model(m: Chip8State, keys: Seq<KeyState>, tick: bool, rb: u8) -> Result<
    Chip8State,
    Fault,
> {
    if m.pc + 1 >= 4096 {
        Err(Fault::AddressOutOfRange)
    } else {
        let m1 = Chip8State { pc: (m.pc + 2) as u16, status: CPUState::Running, ..m };
        match exec_instr(m1, fetched(m), keys, rb) {
            Ok(m2) => Ok(tick_timers(m2, tick)),
            Err(f) => Err(f),
        }
    }
}

/// The decode fields are nibbles and a 12-bit address: they stay below 16
/// and 0x1000 whatever the instruction.
pub proof fn lemma_decode_bounds(instr: u16)
    ensures
        op_family(instr) < 16,
        op_x(instr) < 16,
        op_y(instr) < 16,
        op_n(instr) < 16,
        op_nnn(instr) <= 0xFFF,
        op_sub(instr) <= 0xFF,
{
    assert(instr >> 12 < 16 && (instr & 0x0F00) >> 8 < 16 && (instr & 0x00F0) >> 4 < 16 && (instr
        & 0x000F) < 16 && (instr & 0x0FFF) <= 0xFFF && (instr & 0x00FF) <= 0xFF) by (bit_vector);
}

/// The 80-byte glyph table: five rows for each of the sixteen hexadecimal
/// digits, four pixels wide in the high bits of each row byte.
pub open spec fn fontset() -> Seq<u8> {
    seq![
        0xF0u8, 0x90, 0x90, 0x90, 0xF0,  // 0
        0x20, 0x60, 0x20, 0x20, 0x70,  // 1
        0xF0, 0x10, 0xF0, 0x80, 0xF0,  // 2
        0xF0, 0x10, 0xF0, 0x10, 0xF0,  // 3
        0x90, 0x90, 0xF0, 0x10, 0x10,  // 4
        0xF0, 0x80, 0xF0, 0x10, 0xF0,  // 5
        0xF0, 0x80, 0xF0, 0x90, 0xF0,  // 6
        0xF0, 0x10, 0x20, 0x40, 0x40,  // 7
        0xF0, 0x90, 0xF0, 0x90, 0xF0,  // 8
        0xF0, 0x90, 0xF0, 0x10, 0xF0,  // 9
        0xF0, 0x90, 0xF0, 0x90, 0x90,  // A
        0xE0, 0x90, 0xE0, 0x90, 0xE0,  // B
        0xF0, 0x80, 0x80, 0x80, 0xF0,  // C
        0xE0, 0x90, 0x90, 0x90, 0xE0,  // D
        0xF0, 0x80, 0xF0, 0x80, 0xF0,  // E
        0xF0, 0x80, 0xF0, 0x80, 0x80,  // F
    ]
}

/// The machine as constructed for a program: glyphs at 0x50, the program at
/// 0x200, everything else zeroed, and PC at the program start.
pub open spec fn initial_state(prog: Seq<u8>) -> Chip8State {
    Chip8State {
        mem: Seq::new(
            4096,
            |j: int|
                if 0x50 <= j < 0xA0 {
                    fontset()[j - 0x50]
                } else if 0x200 <= j < 0x200 + prog.len() {
                    prog[j - 0x200]
                } else {
                    0u8
                },
        ),
        gfx: Seq::new(2048, |p: int| PixelState::Off),
        v: Seq::new(16, |j: int| 0u8),
        pc: 0x200,
        i: 0,
        delay: 0,
        sound: 0,
        stack: Seq::new(16, |j: int| 0u16),
        sp: 0,
        status: CPUState::Running,
    }
}

} // verus!
