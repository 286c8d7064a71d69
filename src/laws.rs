use crate::display::{lemma_screen_from_pixels, lemma_with_pixel, on_screen, pixel_at, with_pixel};
use crate::interpreter::{
    collision_at, decode_spec, drawn_pixel, draws, kind_of, n_of, next_pc, nn_of, nnn_of,
    sprite_bit, step, x_of, y_of, Op, StepOutcome,
};
use crate::machine::{instruction_at, MachineState};
use vstd::prelude::*;

verus! {

proof fn lemma_word_fields(w: u16, t: u16, x: u16, y: u16, n: u16)
    requires
        t < 16,
        x < 16,
        y < 16,
        n < 16,
        w == (t << 12u16) | (x << 8u16) | (y << 4u16) | n,
    ensures
        kind_of(w) == t,
        x_of(w) == x,
        y_of(w) == y,
        n_of(w) == n,
        nn_of(w) == (y << 4u16) | n,
        nnn_of(w) == (x << 8u16) | (y << 4u16) | n,
{
    assert(((w & 0xF000) >> 12) == t) by (bit_vector)
        requires
            t < 16,
            x < 16,
            y < 16,
            n < 16,
            w == (t << 12u16) | (x << 8u16) | (y << 4u16) | n,
    ;
    assert(((w & 0x0F00) >> 8) == x) by (bit_vector)
        requires
            t < 16,
            x < 16,
            y < 16,
            n < 16,
            w == (t << 12u16) | (x << 8u16) | (y << 4u16) | n,
    ;
    assert(((w & 0x00F0) >> 4) == y) by (bit_vector)
        requires
            t < 16,
            x < 16,
            y < 16,
            n < 16,
            w == (t << 12u16) | (x << 8u16) | (y << 4u16) | n,
    ;
    assert((w & 0x000F) == n) by (bit_vector)
        requires
            t < 16,
            x < 16,
            y < 16,
            n < 16,
            w == (t << 12u16) | (x << 8u16) | (y << 4u16) | n,
    ;
    assert((w & 0x00FF) < 256) by (bit_vector);
    assert((w & 0x00FF) == (y << 4u16) | n) by (bit_vector)
        requires
            t < 16,
            x < 16,
            y < 16,
            n < 16,
            w == (t << 12u16) | (x << 8u16) | (y << 4u16) | n,
    ;
    assert((w & 0x0FFF) == (x << 8u16) | (y << 4u16) | n) by (bit_vector)
        requires
            t < 16,
            x < 16,
            y < 16,
            n < 16,
            w == (t << 12u16) | (x << 8u16) | (y << 4u16) | n,
    ;
}

/// The instruction word with type `t`, register fields `x` and `y` and low
/// nibble `n`.
pub open spec fn word(t: u16, x: u16, y: u16, n: u16) -> u16 {
    (t << 12u16) | (x << 8u16) | (y << 4u16) | n
}

/// 7XNN adds NN to VX modulo 256 and leaves the flag register alone, for
/// every target register other than the flag register itself.
pub proof fn lemma_add_immediate_wraps(
    m: MachineState,
    x: u16,
    nn: u16,
    random: u8,
    post: MachineState,
    out: StepOutcome,
)
    requires
        m.wf(),
        x < 15,
        nn < 256,
        instruction_at(m.memory, m.pc as int) == (0x7000u16 | (x << 8u16) | nn),
        step(m, random, post, out),
    ensures
        post.v[x as int] == (m.v[x as int] + nn) % 256,
        post.v[15] == m.v[15],
        out == StepOutcome::Continue,
{
    let hi = nn >> 4u16;
    let lo = nn & 0xFu16;
    assert(hi < 16 && lo < 16 && nn == (hi << 4u16) | lo
        && (0x7000u16 | (x << 8u16) | nn) == word(7, x, hi, lo)) by (bit_vector)
        requires
            nn < 256,
            hi == nn >> 4u16,
            lo == nn & 0xFu16,
    ;
    lemma_word_fields(word(7, x, hi, lo), 7, x, hi, lo);
}

/// 8XY4 sets the flag register to 1 exactly when VX + VY exceeds 255 and
/// leaves (VX + VY) mod 256 in VX, for every pair of registers whose target
/// is not the flag register itself.
pub proof fn lemma_add_registers_carry(
    m: MachineState,
    x: u16,
    y: u16,
    random: u8,
    post: MachineState,
    out: StepOutcome,
)
    requires
        m.wf(),
        x < 15,
        y < 16,
        instruction_at(m.memory, m.pc as int) == word(8, x, y, 4),
        step(m, random, post, out),
    ensures
        post.v[15] == (if m.v[x as int] + m.v[y as int] > 255 { 1u8 } else { 0u8 }),
        post.v[x as int] == (m.v[x as int] + m.v[y as int]) % 256,
        out == StepOutcome::Continue,
{
    lemma_word_fields(word(8, x, y, 4), 8, x, y, 4);
}

/// 8XY5 sets the flag register to 1 exactly when no borrow occurs (VX >= VY)
/// and leaves the wrapped difference in VX, for every pair of registers
/// whose target is not the flag register itself.
pub proof fn lemma_subtract_borrow(
    m: MachineState,
    x: u16,
    y: u16,
    random: u8,
    post: MachineState,
    out: StepOutcome,
)
    requires
        m.wf(),
        x < 15,
        y < 16,
        instruction_at(m.memory, m.pc as int) == word(8, x, y, 5),
        step(m, random, post, out),
    ensures
        post.v[15] == (if m.v[x as int] >= m.v[y as int] { 1u8 } else { 0u8 }),
        post.v[x as int] == (m.v[x as int] - m.v[y as int]) % 256,
        out == StepOutcome::Continue,
{
    lemma_word_fields(word(8, x, y, 5), 8, x, y, 5);
}

/// Setting an on-screen pixel and reading it gives 1; clearing it afterwards
/// and reading it gives 0.
pub proof fn lemma_pixel_round_trip(screen: Seq<u8>, x: int, y: int)
    requires
        screen.len() == 256,
        on_screen(x, y),
    ensures
        pixel_at(with_pixel(screen, x, y, 1), x, y) == 1,
        pixel_at(with_pixel(with_pixel(screen, x, y, 1), x, y, 0), x, y) == 0,
{
    lemma_with_pixel(screen, x, y, 1, x, y);
    lemma_with_pixel(with_pixel(screen, x, y, 1), x, y, 0, x, y);
}

/// Drawing a one-row sprite whose only set bit is its leftmost twice at the
/// same place, onto a pixel that was off, leaves that pixel off again, and
/// the second draw sets the flag register to 1 (coordinate registers other
/// than the flag register, which the first draw overwrites).
pub proof fn lemma_draw_twice_collides(
    m: MachineState,
    x: u8,
    y: u8,
    once: MachineState,
    twice: MachineState,
)
    requires
        m.wf(),
        x < 15,
        y < 15,
        m.memory[m.i as int] == 0x80,
        pixel_at(m.screen, (m.v[x as int] % 64) as int, (m.v[y as int] % 32) as int) == 0,
        draws(m, x, y, 1, once),
        draws(once, x, y, 1, twice),
    ensures
        pixel_at(twice.screen, (m.v[x as int] % 64) as int, (m.v[y as int] % 32) as int) == 0,
        twice.v[15] == 1,
{
    let ox = (m.v[x as int] % 64) as int;
    let oy = (m.v[y as int] % 32) as int;
    assert(((0x80u8 >> 7u8) & 1) == 1) by (bit_vector);
    assert(once.v[x as int] == m.v[x as int] && once.v[y as int] == m.v[y as int]);
    assert(on_screen(ox, oy));
    assert((m.i + (oy - oy)) % 4096 == m.i);
    assert(sprite_bit(m.memory, m.i, ox, oy, ox, oy) == 1);
    assert((0u8 ^ 1u8) == 1u8 && (1u8 ^ 1u8) == 0u8) by (bit_vector);
    assert(pixel_at(once.screen, ox, oy) == 1);
    assert(collision_at(once, ox, oy, 1, ox, oy));
}

/// An instruction that jumps to its own address halts the machine.
pub proof fn lemma_self_jump_halts(m: MachineState, random: u8, post: MachineState, out: StepOutcome)
    requires
        m.wf(),
        instruction_at(m.memory, m.pc as int) == (0x1000u16 | (m.pc as u16)),
        step(m, random, post, out),
    ensures
        out == StepOutcome::Halted,
{
    let w = (0x1000u16 | (m.pc as u16));
    let a = m.pc as u16;
    assert(((w & 0xF000) >> 12) == 1 && (w & 0x0FFF) == a) by (bit_vector)
        requires
            a < 4096,
            w == 0x1000u16 | a,
    ;
    assert(decode_spec(w) == Some(Op::Jump { addr: a }));
}

/// A step is determined by the state and the random byte: the contract of
/// the step function leaves no choice of result.
pub proof fn lemma_step_deterministic(
    m: MachineState,
    random: u8,
    p1: MachineState,
    o1: StepOutcome,
    p2: MachineState,
    o2: StepOutcome,
)
    requires
        m.wf(),
        step(m, random, p1, o1),
        step(m, random, p2, o2),
    ensures
        p1 == p2,
        o1 == o2,
{
    let at = m.pc;
    let w = instruction_at(m.memory, at as int);
    if let Some(Op::Draw { x, y, n }) = decode_spec(w) {
        let fetched = MachineState { pc: next_pc(at), ..m };
        let ox = (fetched.v[x as int] % 64) as int;
        let oy = (fetched.v[y as int] % 32) as int;
        assert forall|px: int, py: int| on_screen(px, py) implies #[trigger] pixel_at(
            p1.screen,
            px,
            py,
        ) == pixel_at(p2.screen, px, py) by {
            assert(pixel_at(p1.screen, px, py) == drawn_pixel(fetched, ox, oy, n as int, px, py));
            assert(pixel_at(p2.screen, px, py) == drawn_pixel(fetched, ox, oy, n as int, px, py));
        }
        lemma_screen_from_pixels(p1.screen, p2.screen);
    }
}

} // verus!
