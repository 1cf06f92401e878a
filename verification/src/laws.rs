//! Laws of the machine: properties that relate several cycles or several
//! parts of one cycle, stated and proved over the spec functions of
//! [`crate::model`].

use vstd::prelude::*;

use crate::cpu::CPUState;
use crate::cpu::Fault;
use crate::cpu::KeyState;
use crate::cpu::PixelState;
use crate::model::Chip8State;
use crate::model::cycle_model;
use crate::model::draw_collision;
use crate::model::draw_gfx;
use crate::model::fetched;
use crate::model::first_pressed;
use crate::model::first_pressed_from;
use crate::model::flip;
use crate::model::instr_of;
use crate::model::lemma_decode_bounds;
use crate::model::op_family;
use crate::model::op_nn;
use crate::model::op_nnn;
use crate::model::op_sub;
use crate::model::op_x;
use crate::model::sprite_bit;
use crate::model::state_wf;
use crate::model::tick_timers;

verus! {

/// Loading a register and then adding to it: after a `6XNN` cycle followed
/// by a `7XNN'` cycle naming the same register, VX holds the wrapping sum of
/// the two immediates, whatever the rest of the machine was doing.
pub proof fn lemma_load_then_add(
    m: Chip8State,
    keys1: Seq<KeyState>,
    keys2: Seq<KeyState>,
    tick1: bool,
    tick2: bool,
    rb1: u8,
    rb2: u8,
    m1: Chip8State,
    m2: Chip8State,
)
    requires
        state_wf(m),
        m.pc + 3 < 4096,
        op_family(fetched(m)) == 0x6,
        op_family(instr_of(m.mem[m.pc + 2], m.mem[m.pc + 3])) == 0x7,
        op_x(instr_of(m.mem[m.pc + 2], m.mem[m.pc + 3])) == op_x(fetched(m)),
        cycle_model(m, keys1, tick1, rb1) == Ok::<Chip8State, Fault>(m1),
        cycle_model(m1, keys2, tick2, rb2) == Ok::<Chip8State, Fault>(m2),
    ensures
        m2.v[op_x(fetched(m)) as int] == vstd::wrapping::u8_specs::wrapping_add(
            op_nn(fetched(m)),
            op_nn(instr_of(m.mem[m.pc + 2], m.mem[m.pc + 3])),
        ),
{
    lemma_decode_bounds(fetched(m));
    lemma_decode_bounds(instr_of(m.mem[m.pc + 2], m.mem[m.pc + 3]));
}

/// XOR compositing is an involution: drawing the same sprite at the same
/// origin twice gives back the framebuffer it started from; and when the
/// sprite is non-empty and every pixel it lands on starts off, the second
/// draw reports a collision, because the first draw turned those pixels on.
pub proof fn lemma_draw_twice(gfx: Seq<PixelState>, sprite: Seq<u8>, vx: int, vy: int, cols: int)
    requires
        gfx.len() == 2048,
        0 <= vy,
        vy + sprite.len() <= 32,
        0 <= vx,
        vx + cols <= 64,
    ensures
        draw_gfx(draw_gfx(gfx, sprite, vx, vy, cols), sprite, vx, vy, cols) == gfx,
        ((exists|r: int, c: int|
            0 <= r < sprite.len() && 0 <= c < cols && #[trigger] sprite_bit(sprite[r], c))
            && (forall|r: int, c: int|
            0 <= r < sprite.len() && 0 <= c < cols && #[trigger] sprite_bit(sprite[r], c)
                ==> gfx[(vy + r) * 64 + (vx + c)] == PixelState::Off)) ==> draw_collision(
            draw_gfx(gfx, sprite, vx, vy, cols),
            sprite,
            vx,
            vy,
            cols,
        ),
{
    let g1 = draw_gfx(gfx, sprite, vx, vy, cols);
    assert forall|p: int| 0 <= p < 2048 implies draw_gfx(g1, sprite, vx, vy, cols)[p] == gfx[p] by {
        assert(flip(flip(gfx[p])) == gfx[p]);
    };
    assert(draw_gfx(g1, sprite, vx, vy, cols) =~= gfx);
    if (exists|r: int, c: int|
        0 <= r < sprite.len() && 0 <= c < cols && #[trigger] sprite_bit(sprite[r], c)) && (
    forall|r: int, c: int|
        0 <= r < sprite.len() && 0 <= c < cols && #[trigger] sprite_bit(sprite[r], c) ==> gfx[(vy
            + r) * 64 + (vx + c)] == PixelState::Off) {
        let (r, c) = choose|r: int, c: int|
            0 <= r < sprite.len() && 0 <= c < cols && #[trigger] sprite_bit(sprite[r], c);
        let p = (vy + r) * 64 + (vx + c);
        assert(p / 64 == vy + r && p % 64 == vx + c) by (nonlinear_arith)
            requires
                p == (vy + r) * 64 + (vx + c),
                0 <= vx + c < 64,
                0 <= vy + r,
        ;
        assert(g1[p] == flip(gfx[p]));
        assert(g1[p] == PixelState::On);
        assert(draw_collision(g1, sprite, vx, vy, cols));
    }
}

/// Clipping: a draw changes no pixel outside the clipped sprite rectangle.
/// In particular a sprite whose origin column is 60 is cut to four columns:
/// nothing is written at or past the right edge, and nothing wraps around to
/// the left edge.
pub proof fn lemma_draw_outside_untouched(
    gfx: Seq<PixelState>,
    sprite: Seq<u8>,
    vx: int,
    vy: int,
    cols: int,
    p: int,
)
    requires
        0 <= p < gfx.len(),
        !(vy <= p / 64 < vy + sprite.len()) || !(vx <= p % 64 < vx + cols),
    ensures
        draw_gfx(gfx, sprite, vx, vy, cols)[p] == gfx[p],
{
}

/// What the key scan returns from index `j` on: the lowest-indexed pressed
/// key at or above `j`, or nothing when none is pressed there.
pub proof fn lemma_first_pressed_from(keys: Seq<KeyState>, j: int)
    requires
        0 <= j <= 16,
    ensures
        match first_pressed_from(keys, j) {
            Some(k) => j <= k < 16 && keys[k as int] == KeyState::Pressed && (forall|t: int|
                j <= t < k ==> keys[t] != KeyState::Pressed),
            None => forall|t: int| j <= t < 16 ==> keys[t] != KeyState::Pressed,
        },
    decreases 16 - j,
{
    if j < 16 && keys[j] != KeyState::Pressed {
        lemma_first_pressed_from(keys, j + 1);
    }
}

/// The key-wait stall: an `FX0A` cycle with no key pressed leaves PC exactly
/// where it was, so the same instruction runs again; with keys pressed, VX
/// receives the lowest pressed index and PC moves past the instruction.
pub proof fn lemma_key_wait(
    m: Chip8State,
    keys: Seq<KeyState>,
    tick: bool,
    rb: u8,
    m1: Chip8State,
)
    requires
        state_wf(m),
        m.pc + 1 < 4096,
        op_family(fetched(m)) == 0xF,
        op_sub(fetched(m)) == 0x0A,
        cycle_model(m, keys, tick, rb) == Ok::<Chip8State, Fault>(m1),
    ensures
        (forall|k: int| 0 <= k < 16 ==> keys[k] != KeyState::Pressed) ==> m1.pc == m.pc,
        (exists|k: int| 0 <= k < 16 && keys[k] == KeyState::Pressed) ==> {
            &&& m1.pc == m.pc + 2
            &&& first_pressed(keys) is Some
            &&& m1.v == m.v.update(
                op_x(fetched(m)) as int,
                first_pressed(keys)->Some_0,
            )
            &&& keys[first_pressed(keys)->Some_0 as int] == KeyState::Pressed
            &&& forall|t: int|
                0 <= t < first_pressed(keys)->Some_0 ==> keys[t] != KeyState::Pressed
        },
{
    lemma_decode_bounds(fetched(m));
    lemma_first_pressed_from(keys, 0);
    if exists|k: int| 0 <= k < 16 && keys[k] == KeyState::Pressed {
        let k = choose|k: int| 0 <= k < 16 && keys[k] == KeyState::Pressed;
        if first_pressed(keys) is None {
            assert(keys[k] != KeyState::Pressed);
        }
    }
}

/// Timers move only on a tick, and only downwards to zero: without a tick
/// both are untouched, and a tick takes one off each timer unless it is
/// already zero.
pub proof fn lemma_timer_tick(m: Chip8State)
    ensures
        tick_timers(m, false) == m,
        tick_timers(m, true).delay == if m.delay > 0 {
            (m.delay - 1) as u8
        } else {
            0u8
        },
        tick_timers(m, true).sound == if m.sound > 0 {
            (m.sound - 1) as u8
        } else {
            0u8
        },
        tick_timers(m, true) == (Chip8State {
            delay: tick_timers(m, true).delay,
            sound: tick_timers(m, true).sound,
            ..m
        }),
{
}

/// The timer state after `n` consecutive ticks.
pub open spec fn tick_n(m: Chip8State, n: nat) -> Chip8State
    decreases n,
{
    if n == 0 {
        m
    } else {
        tick_timers(tick_n(m, (n - 1) as nat), true)
    }
}

/// However many consecutive ticks arrive, a timer counts down and then
/// saturates at zero: it never wraps below it.
pub proof fn lemma_timers_saturate(m: Chip8State, n: nat)
    ensures
        tick_n(m, n).delay == if m.delay >= n {
            (m.delay - n) as u8
        } else {
            0u8
        },
        tick_n(m, n).sound == if m.sound >= n {
            (m.sound - n) as u8
        } else {
            0u8
        },
    decreases n,
{
    if n > 0 {
        lemma_timers_saturate(m, (n - 1) as nat);
    }
}

/// A cycle never resizes anything: memory, framebuffer, registers and stack
/// keep their fixed sizes, and the stack pointer stays on a valid slot.
pub proof fn lemma_cycle_preserves_wf(
    m: Chip8State,
    keys: Seq<KeyState>,
    tick: bool,
    rb: u8,
    m1: Chip8State,
)
    requires
        state_wf(m),
        cycle_model(m, keys, tick, rb) == Ok::<Chip8State, Fault>(m1),
    ensures
        state_wf(m1),
{
    lemma_decode_bounds(fetched(m));
}

/// A jump that names its own address is a fixpoint of the machine: a cycle
/// without a timer tick changes nothing but the reported status, which
/// settles at `Running`.
pub proof fn lemma_jump_to_self(
    m: Chip8State,
    keys: Seq<KeyState>,
    rb: u8,
    m1: Chip8State,
)
    requires
        state_wf(m),
        m.pc + 1 < 4096,
        op_family(fetched(m)) == 0x1,
        op_nnn(fetched(m)) == m.pc,
        cycle_model(m, keys, false, rb) == Ok::<Chip8State, Fault>(m1),
    ensures
        m1 == (Chip8State { status: CPUState::Running, ..m }),
{
    assert(m1 =~= (Chip8State { status: CPUState::Running, ..m }));
}

} // verus!
