use crate::display::{bit_of, on_screen, pixel_at};
use crate::machine::{
    held_key, instruction_at, key_held, Chip8, MachineState, FONT_START_ADDRESS, MEMORY_SIZE,
    NO_KEY, REGISTER_INDEX_FLAG, SCREEN_HEIGHT, SCREEN_WIDTH,
};
use vstd::prelude::*;

verus! {

/// A decoded instruction. `x` and `y` name registers (0 to 15), `nn` is an
/// 8-bit immediate, `addr` a 12-bit address and `n` a sprite height.
#[derive(Debug, Clone, Copy, PartialEq, Eq, Structural)]
pub enum Op {
    /// 00E0: clear the screen (kept without effect).
    ClearScreen,
    /// 00EE: return from a subroutine (kept without effect).
    Return,
    /// 1NNN
    Jump { addr: u16 },
    /// 2NNN
    Call { addr: u16 },
    /// 3XNN
    SkipIfEqual { x: u8, nn: u8 },
    /// 4XNN
    SkipIfNotEqual { x: u8, nn: u8 },
    /// 5XY0
    SkipIfRegistersEqual { x: u8, y: u8 },
    /// 6XNN
    Load { x: u8, nn: u8 },
    /// 7XNN
    AddImmediate { x: u8, nn: u8 },
    /// 8XY0
    Copy { x: u8, y: u8 },
    /// 8XY1
    Or { x: u8, y: u8 },
    /// 8XY2
    And { x: u8, y: u8 },
    /// 8XY3
    Xor { x: u8, y: u8 },
    /// 8XY4
    AddRegisters { x: u8, y: u8 },
    /// 8XY5
    Subtract { x: u8, y: u8 },
    /// 8XY6
    ShiftRight { x: u8 },
    /// 8XY7
    SubtractFrom { x: u8, y: u8 },
    /// 8XYE
    ShiftLeft { x: u8 },
    /// 9XY0
    SkipIfRegistersNotEqual { x: u8, y: u8 },
    /// ANNN
    SetIndex { addr: u16 },
    /// BNNN
    JumpWithOffset { addr: u16 },
    /// CXNN
    Random { x: u8, nn: u8 },
    /// DXYN
    Draw { x: u8, y: u8, n: u8 },
    /// EX9E
    SkipIfKey { x: u8 },
    /// EXA1
    SkipIfNotKey { x: u8 },
    /// FX07
    GetTimer { x: u8 },
    /// FX15
    SetTimer { x: u8 },
    /// FX18
    SetSoundTimer { x: u8 },
    /// FX1E
    AddToIndex { x: u8 },
    /// FX0A
    WaitForKey { x: u8 },
    /// FX29
    FontCharacter { x: u8 },
    /// FX33
    BinaryCodedDecimal { x: u8 },
    /// FX55
    StoreRegisters { x: u8 },
    /// FX65
    LoadRegisters { x: u8 },
}

/// What a single step asks of the host.
#[derive(Debug, Clone, Copy, PartialEq, Eq, Structural)]
pub enum StepOutcome {
    /// Go on with the next step.
    Continue,
    /// The framebuffer was drawn on: hand the peripheral state out.
    ScreenChanged,
    /// A jump to its own address was met: stop successfully.
    Halted,
    /// The word fetched from `address` is no known instruction.
    UnknownInstruction { instruction: u16, address: usize },
}

/// Bits 15 to 12: the instruction's type.
pub open spec fn kind_of(w: u16) -> u8 {
    ((w & 0xF000) >> 12) as u8
}

/// Bits 11 to 8: register X.
pub open spec fn x_of(w: u16) -> u8 {
    ((w & 0x0F00) >> 8) as u8
}

/// Bits 7 to 4: register Y.
pub open spec fn y_of(w: u16) -> u8 {
    ((w & 0x00F0) >> 4) as u8
}

/// Bits 3 to 0.
pub open spec fn n_of(w: u16) -> u8 {
    (w & 0x000F) as u8
}

/// The low byte.
pub open spec fn nn_of(w: u16) -> u8 {
    (w & 0x00FF) as u8
}

/// The low twelve bits.
pub open spec fn nnn_of(w: u16) -> u16 {
    w & 0x0FFF
}

/// The decode table: which operation a word encodes, if any.
pub open spec fn decode_spec(w: u16) -> Option<Op> {
    let t = kind_of(w);
    let x = x_of(w);
    let y = y_of(w);
    let n = n_of(w);
    let nn = nn_of(w);
    let addr = nnn_of(w);
    if t == 0x0 && x == 0x0 && y == 0xE && n == 0x0 {
        Some(Op::ClearScreen)
    } else if t == 0x0 && x == 0x0 && y == 0xE && n == 0xE {
        Some(Op::Return)
    } else if t == 0x1 {
        Some(Op::Jump { addr })
    } else if t == 0x2 {
        Some(Op::Call { addr })
    } else if t == 0x3 {
        Some(Op::SkipIfEqual { x, nn })
    } else if t == 0x4 {
        Some(Op::SkipIfNotEqual { x, nn })
    } else if t == 0x5 && n == 0x0 {
        Some(Op::SkipIfRegistersEqual { x, y })
    } else if t == 0x6 {
        Some(Op::Load { x, nn })
    } else if t == 0x7 {
        Some(Op::AddImmediate { x, nn })
    } else if t == 0x8 && n == 0x0 {
        Some(Op::Copy { x, y })
    } else if t == 0x8 && n == 0x1 {
        Some(Op::Or { x, y })
    } else if t == 0x8 && n == 0x2 {
        Some(Op::And { x, y })
    } else if t == 0x8 && n == 0x3 {
        Some(Op::Xor { x, y })
    } else if t == 0x8 && n == 0x4 {
        Some(Op::AddRegisters { x, y })
    } else if t == 0x8 && n == 0x5 {
        Some(Op::Subtract { x, y })
    } else if t == 0x8 && n == 0x6 {
        Some(Op::ShiftRight { x })
    } else if t == 0x8 && n == 0x7 {
        Some(Op::SubtractFrom { x, y })
    } else if t == 0x8 && n == 0xE {
        Some(Op::ShiftLeft { x })
    } else if t == 0x9 && n == 0x0 {
        Some(Op::SkipIfRegistersNotEqual { x, y })
    } else if t == 0xA {
        Some(Op::SetIndex { addr })
    } else if t == 0xB {
        Some(Op::JumpWithOffset { addr })
    } else if t == 0xC {
        Some(Op::Random { x, nn })
    } else if t == 0xD {
        Some(Op::Draw { x, y, n })
    } else if t == 0xE && y == 0x9 && n == 0xE {
        Some(Op::SkipIfKey { x })
    } else if t == 0xE && y == 0xA && n == 0x1 {
        Some(Op::SkipIfNotKey { x })
    } else if t == 0xF && y == 0x0 && n == 0x7 {
        Some(Op::GetTimer { x })
    } else if t == 0xF && y == 0x1 && n == 0x5 {
        Some(Op::SetTimer { x })
    } else if t == 0xF && y == 0x1 && n == 0x8 {
        Some(Op::SetSoundTimer { x })
    } else if t == 0xF && y == 0x1 && n == 0xE {
        Some(Op::AddToIndex { x })
    } else if t == 0xF && y == 0x0 && n == 0xA {
        Some(Op::WaitForKey { x })
    } else if t == 0xF && y == 0x2 && n == 0x9 {
        Some(Op::FontCharacter { x })
    } else if t == 0xF && y == 0x3 && n == 0x3 {
        Some(Op::BinaryCodedDecimal { x })
    } else if t == 0xF && y == 0x5 && n == 0x5 {
        Some(Op::StoreRegisters { x })
    } else if t == 0xF && y == 0x6 && n == 0x5 {
        Some(Op::LoadRegisters { x })
    } else {
        None
    }
}

proof fn lemma_fields(w: u16)
    ensures
        kind_of(w) < 16,
        x_of(w) < 16,
        y_of(w) < 16,
        n_of(w) < 16,
        nnn_of(w) < 4096,
{
    assert(((w & 0xF000) >> 12) < 16) by (bit_vector);
    assert(((w & 0x0F00) >> 8) < 16) by (bit_vector);
    assert(((w & 0x00F0) >> 4) < 16) by (bit_vector);
    assert((w & 0x000F) < 16) by (bit_vector);
    assert((w & 0x0FFF) < 4096) by (bit_vector);
}

/// Register and height fields of every decoded operation are below 16, and
/// addresses below 4096.
pub open spec fn op_fields_in_range(op: Op) -> bool {
    match op {
        Op::Jump { addr } | Op::Call { addr } | Op::SetIndex { addr } | Op::JumpWithOffset {
            addr,
        } => addr < 4096,
        Op::SkipIfEqual { x, .. } | Op::SkipIfNotEqual { x, .. } | Op::Load { x, .. }
        | Op::AddImmediate { x, .. } | Op::Random { x, .. } => x < 16,
        Op::SkipIfRegistersEqual { x, y } | Op::Copy { x, y } | Op::Or { x, y } | Op::And {
            x,
            y,
        } | Op::Xor { x, y } | Op::AddRegisters { x, y } | Op::Subtract { x, y }
        | Op::SubtractFrom { x, y } | Op::SkipIfRegistersNotEqual { x, y } => x < 16 && y < 16,
        Op::Draw { x, y, n } => x < 16 && y < 16 && n < 16,
        Op::ShiftRight { x } | Op::ShiftLeft { x } | Op::SkipIfKey { x } | Op::SkipIfNotKey { x }
        | Op::GetTimer { x } | Op::SetTimer { x } | Op::SetSoundTimer { x } | Op::AddToIndex { x }
        | Op::WaitForKey { x } | Op::FontCharacter { x } | Op::BinaryCodedDecimal { x }
        | Op::StoreRegisters { x } | Op::LoadRegisters { x } => x < 16,
        _ => true,
    }
}

/// Decodes an instruction word by the decode table.
pub fn decode(w: u16) -> (r: Option<Op>)
    ensures
        r == decode_spec(w),
        r matches Some(op) ==> op_fields_in_range(op),
{
    proof {
        lemma_fields(w);
    }
    let t = ((w & 0xF000) >> 12) as u8;
    let x = ((w & 0x0F00) >> 8) as u8;
    let y = ((w & 0x00F0) >> 4) as u8;
    let n = (w & 0x000F) as u8;
    let nn = (w & 0x00FF) as u8;
    let addr = w & 0x0FFF;
    if t == 0x0 && x == 0x0 && y == 0xE && n == 0x0 {
        Some(Op::ClearScreen)
    } else if t == 0x0 && x == 0x0 && y == 0xE && n == 0xE {
        Some(Op::Return)
    } else if t == 0x1 {
        Some(Op::Jump { addr })
    } else if t == 0x2 {
        Some(Op::Call { addr })
    } else if t == 0x3 {
        Some(Op::SkipIfEqual { x, nn })
    } else if t == 0x4 {
        Some(Op::SkipIfNotEqual { x, nn })
    } else if t == 0x5 && n == 0x0 {
        Some(Op::SkipIfRegistersEqual { x, y })
    } else if t == 0x6 {
        Some(Op::Load { x, nn })
    } else if t == 0x7 {
        Some(Op::AddImmediate { x, nn })
    } else if t == 0x8 && n == 0x0 {
        Some(Op::Copy { x, y })
    } else if t == 0x8 && n == 0x1 {
        Some(Op::Or { x, y })
    } else if t == 0x8 && n == 0x2 {
        Some(Op::And { x, y })
    } else if t == 0x8 && n == 0x3 {
        Some(Op::Xor { x, y })
    } else if t == 0x8 && n == 0x4 {
        Some(Op::AddRegisters { x, y })
    } else if t == 0x8 && n == 0x5 {
        Some(Op::Subtract { x, y })
    } else if t == 0x8 && n == 0x6 {
        Some(Op::ShiftRight { x })
    } else if t == 0x8 && n == 0x7 {
        Some(Op::SubtractFrom { x, y })
    } else if t == 0x8 && n == 0xE {
        Some(Op::ShiftLeft { x })
    } else if t == 0x9 && n == 0x0 {
        Some(Op::SkipIfRegistersNotEqual { x, y })
    } else if t == 0xA {
        Some(Op::SetIndex { addr })
    } else if t == 0xB {
        Some(Op::JumpWithOffset { addr })
    } else if t == 0xC {
        Some(Op::Random { x, nn })
    } else if t == 0xD {
        Some(Op::Draw { x, y, n })
    } else if t == 0xE && y == 0x9 && n == 0xE {
        Some(Op::SkipIfKey { x })
    } else if t == 0xE && y == 0xA && n == 0x1 {
        Some(Op::SkipIfNotKey { x })
    } else if t == 0xF && y == 0x0 && n == 0x7 {
        Some(Op::GetTimer { x })
    } else if t == 0xF && y == 0x1 && n == 0x5 {
        Some(Op::SetTimer { x })
    } else if t == 0xF && y == 0x1 && n == 0x8 {
        Some(Op::SetSoundTimer { x })
    } else if t == 0xF && y == 0x1 && n == 0xE {
        Some(Op::AddToIndex { x })
    } else if t == 0xF && y == 0x0 && n == 0xA {
        Some(Op::WaitForKey { x })
    } else if t == 0xF && y == 0x2 && n == 0x9 {
        Some(Op::FontCharacter { x })
    } else if t == 0xF && y == 0x3 && n == 0x3 {
        Some(Op::BinaryCodedDecimal { x })
    } else if t == 0xF && y == 0x5 && n == 0x5 {
        Some(Op::StoreRegisters { x })
    } else if t == 0xF && y == 0x6 && n == 0x5 {
        Some(Op::LoadRegisters { x })
    } else {
        None
    }
}

/// The address two bytes on, wrapping at the end of memory.
pub open spec fn next_pc(a: usize) -> usize {
    ((a + 2) % (MEMORY_SIZE as int)) as usize
}

/// The program counter after a conditional skip.
pub open spec fn skip_if(pc: usize, cond: bool) -> usize {
    if cond {
        next_pc(pc)
    } else {
        pc
    }
}

/// `v` with register `x` set to `val`.
pub open spec fn set_reg(v: Seq<u8>, x: u8, val: u8) -> Seq<u8> {
    v.update(x as int, val)
}

/// `v` after writing `flag` into the flag register and then `op` of the
/// new value of register `x` into register `x`.
pub open spec fn flag_then_result(v: Seq<u8>, flag: u8, x: u8, op: spec_fn(u8) -> u8) -> Seq<u8> {
    let v1 = set_reg(v, REGISTER_INDEX_FLAG as u8, flag);
    set_reg(v1, x, op(v1[x as int]))
}

/// Memory after the registers below `count` were copied to successive
/// addresses from `i` (wrapping at the end of memory).
pub open spec fn stored_registers(memory: Seq<u8>, i: usize, v: Seq<u8>, count: int) -> Seq<u8> {
    Seq::new(
        memory.len(),
        |a: int|
            {
                let k = (a - i) % (MEMORY_SIZE as int);
                if k < count {
                    v[k]
                } else {
                    memory[a]
                }
            },
    )
}

/// Registers after those below `count` were read from successive addresses
/// from `i` (wrapping at the end of memory).
pub open spec fn loaded_registers(memory: Seq<u8>, i: usize, v: Seq<u8>, count: int) -> Seq<u8> {
    Seq::new(
        v.len(),
        |k: int|
            if k < count {
                memory[(i + k) % (MEMORY_SIZE as int)]
            } else {
                v[k]
            },
    )
}

/// The hundreds, tens and ones digits of `b` written at `i`, `i + 1` and
/// `i + 2` (wrapping at the end of memory).
pub open spec fn bcd_written(memory: Seq<u8>, i: usize, b: u8) -> Seq<u8> {
    memory.update(i as int, b / 100 % 10).update((i + 1) % (MEMORY_SIZE as int), b / 10 % 10).update(
        (i + 2) % (MEMORY_SIZE as int),
        b % 10,
    )
}

/// Whether on-screen pixel (px, py) lies under an 8-wide, `n`-tall sprite
/// whose top left corner is (ox, oy).
pub open spec fn sprite_covers(ox: int, oy: int, n: int, px: int, py: int) -> bool {
    ox <= px < ox + 8 && oy <= py < oy + n
}

/// The sprite's bit for pixel (px, py): row `py - oy` is the byte at
/// `i + py - oy`, its most significant bit drawn leftmost.
pub open spec fn sprite_bit(memory: Seq<u8>, i: usize, ox: int, oy: int, px: int, py: int) -> u8 {
    bit_of(memory[(i + (py - oy)) % (MEMORY_SIZE as int)], (7 - (px - ox)) as u8)
}

/// Whether drawing the sprite turns off the on-screen pixel (px, py).
pub open spec fn collision_at(m: MachineState, ox: int, oy: int, n: int, px: int, py: int) -> bool {
    &&& on_screen(px, py)
    &&& sprite_covers(ox, oy, n, px, py)
    &&& sprite_bit(m.memory, m.i, ox, oy, px, py) == 1
    &&& pixel_at(m.screen, px, py) == 1
}

/// Whether the sprite turns off a pixel that was on.
pub open spec fn sprite_collides(m: MachineState, ox: int, oy: int, n: int) -> bool {
    exists|px: int, py: int| #[trigger] collision_at(m, ox, oy, n, px, py)
}

/// The value of on-screen pixel (px, py) after the sprite is XORed onto `m`'s screen.
pub open spec fn drawn_pixel(m: MachineState, ox: int, oy: int, n: int, px: int, py: int) -> u8 {
    if sprite_covers(ox, oy, n, px, py) {
        pixel_at(m.screen, px, py) ^ sprite_bit(m.memory, m.i, ox, oy, px, py)
    } else {
        pixel_at(m.screen, px, py)
    }
}

/// DXYN: the sprite of `n` rows at the index register is XORed onto the
/// screen at (VX mod 64, VY mod 32), clipped at the edges; the flag register
/// becomes 1 when a pixel was turned off and 0 otherwise. Nothing else changes.
pub open spec fn draws(m: MachineState, x: u8, y: u8, n: u8, post: MachineState) -> bool {
    let ox = (m.v[x as int] % 64) as int;
    let oy = (m.v[y as int] % 32) as int;
    let flag: u8 = if sprite_collides(m, ox, oy, n as int) {
        1
    } else {
        0
    };
    &&& post.screen.len() == m.screen.len()
    &&& post == MachineState {
        screen: post.screen,
        v: set_reg(m.v, REGISTER_INDEX_FLAG as u8, flag),
        ..m
    }
    &&& forall|px: int, py: int|
        on_screen(px, py) ==> #[trigger] pixel_at(post.screen, px, py) == drawn_pixel(
            m,
            ox,
            oy,
            n as int,
            px,
            py,
        )
}

/// The state after an operation other than DXYN, fetched from `at`, on `m`
/// (whose program counter already points past it). Every address that an
/// operation computes wraps at the end of memory, so that the program
/// counter and the index register always name a memory cell. The clear
/// screen and return operations are kept without effect, and FX55 / FX65
/// move the registers below X, not register X itself.
pub open spec fn effect(m: MachineState, at: usize, op: Op, random: u8) -> MachineState {
    let v = m.v;
    match op {
        Op::Jump { addr } => if addr as usize == at {
            m
        } else {
            MachineState { pc: addr as usize, ..m }
        },
        Op::Call { addr } => MachineState { stack: m.stack.push(m.pc), pc: addr as usize, ..m },
        Op::SkipIfEqual { x, nn } => MachineState { pc: skip_if(m.pc, v[x as int] == nn), ..m },
        Op::SkipIfNotEqual { x, nn } => MachineState { pc: skip_if(m.pc, v[x as int] != nn), ..m },
        Op::SkipIfRegistersEqual { x, y } => MachineState {
            pc: skip_if(m.pc, v[x as int] == v[y as int]),
            ..m
        },
        Op::Load { x, nn } => MachineState { v: set_reg(v, x, nn), ..m },
        Op::AddImmediate { x, nn } => MachineState {
            v: set_reg(v, x, ((v[x as int] + nn) % 256) as u8),
            ..m
        },
        Op::Copy { x, y } => MachineState { v: set_reg(v, x, v[y as int]), ..m },
        Op::Or { x, y } => MachineState { v: set_reg(v, x, v[x as int] | v[y as int]), ..m },
        Op::And { x, y } => MachineState { v: set_reg(v, x, v[x as int] & v[y as int]), ..m },
        Op::Xor { x, y } => MachineState { v: set_reg(v, x, v[x as int] ^ v[y as int]), ..m },
        Op::AddRegisters { x, y } => {
            let sum = v[x as int] + v[y as int];
            MachineState {
                v: set_reg(
                    set_reg(v, REGISTER_INDEX_FLAG as u8, if sum > 255 { 1u8 } else { 0u8 }),
                    x,
                    (sum % 256) as u8,
                ),
                ..m
            }
        },
        Op::Subtract { x, y } => MachineState {
            v: set_reg(
                set_reg(v, x, ((v[x as int] - v[y as int]) % 256) as u8),
                REGISTER_INDEX_FLAG as u8,
                if v[x as int] >= v[y as int] { 1u8 } else { 0u8 },
            ),
            ..m
        },
        Op::ShiftRight { x } => MachineState {
            v: flag_then_result(v, v[x as int] & 1, x, |b: u8| b >> 1u8),
            ..m
        },
        Op::SubtractFrom { x, y } => MachineState {
            v: set_reg(
                set_reg(v, x, ((v[y as int] - v[x as int]) % 256) as u8),
                REGISTER_INDEX_FLAG as u8,
                if v[y as int] >= v[x as int] { 1u8 } else { 0u8 },
            ),
            ..m
        },
        Op::ShiftLeft { x } => MachineState {
            v: flag_then_result(v, (v[x as int] & 0x80) >> 7u8, x, |b: u8| ((b * 2) % 256) as u8),
            ..m
        },
        Op::SkipIfRegistersNotEqual { x, y } => MachineState {
            pc: skip_if(m.pc, v[x as int] != v[y as int]),
            ..m
        },
        Op::SetIndex { addr } => MachineState { i: addr as usize, ..m },
        Op::JumpWithOffset { addr } => MachineState {
            pc: ((addr + v[0]) % (MEMORY_SIZE as int)) as usize,
            ..m
        },
        Op::Random { x, nn } => MachineState { v: set_reg(v, x, random & nn), ..m },
        Op::SkipIfKey { x } => MachineState { pc: skip_if(m.pc, key_held(v[x as int])), ..m },
        Op::SkipIfNotKey { x } => MachineState { pc: skip_if(m.pc, !key_held(v[x as int])), ..m },
        Op::GetTimer { x } => MachineState { v: set_reg(v, x, m.timer), ..m },
        Op::SetTimer { x } => MachineState { timer: v[x as int], ..m },
        Op::AddToIndex { x } => MachineState {
            i: ((m.i + v[x as int]) % (MEMORY_SIZE as int)) as usize,
            ..m
        },
        Op::WaitForKey { x } => if held_key() != NO_KEY {
            MachineState { v: set_reg(v, x, held_key()), ..m }
        } else {
            MachineState { pc: at, ..m }
        },
        Op::FontCharacter { x } => MachineState {
            i: (FONT_START_ADDRESS + v[x as int] * 5) as usize,
            ..m
        },
        Op::BinaryCodedDecimal { x } => MachineState {
            memory: bcd_written(m.memory, m.i, v[x as int]),
            ..m
        },
        Op::StoreRegisters { x } => MachineState {
            memory: stored_registers(m.memory, m.i, v, x as int),
            ..m
        },
        Op::LoadRegisters { x } => MachineState {
            v: loaded_registers(m.memory, m.i, v, x as int),
            ..m
        },
        _ => m,
    }
}

/// Operations whose only effect is on the registers.
pub open spec fn is_register_op(op: Op) -> bool {
    match op {
        Op::Load { .. } | Op::AddImmediate { .. } | Op::Copy { .. } | Op::Or { .. } | Op::And {
            ..
        } | Op::Xor { .. } | Op::AddRegisters { .. } | Op::Subtract { .. } | Op::ShiftRight { .. }
        | Op::SubtractFrom { .. } | Op::ShiftLeft { .. } | Op::Random { .. } | Op::GetTimer {
            ..
        } => true,
        _ => false,
    }
}

/// Operations that write a register and the flag register.
pub open spec fn is_flag_op(op: Op) -> bool {
    match op {
        Op::AddRegisters { .. } | Op::Subtract { .. } | Op::ShiftRight { .. }
        | Op::SubtractFrom { .. } | Op::ShiftLeft { .. } => true,
        _ => false,
    }
}

/// What the host is asked to do after `op`, fetched from `at`.
pub open spec fn outcome_of(at: usize, op: Op) -> StepOutcome {
    match op {
        Op::Jump { addr } => if addr as usize == at {
            StepOutcome::Halted
        } else {
            StepOutcome::Continue
        },
        Op::Draw { .. } => StepOutcome::ScreenChanged,
        _ => StepOutcome::Continue,
    }
}

/// One fetch-decode-execute step from `m` yields `post` and `out`, with
/// `random` as the byte drawn for CXNN.
pub open spec fn step(m: MachineState, random: u8, post: MachineState, out: StepOutcome) -> bool {
    let at = m.pc;
    let w = instruction_at(m.memory, at as int);
    let fetched = MachineState { pc: next_pc(at), ..m };
    match decode_spec(w) {
        None => post == fetched && out == (StepOutcome::UnknownInstruction {
            instruction: w,
            address: at,
        }),
        Some(op) => out == outcome_of(at, op) && match op {
            Op::Draw { x, y, n } => draws(fetched, x, y, n, post),
            _ => post == effect(fetched, at, op, random),
        },
    }
}

/// The position of pixel (px, py) in the order in which a sprite is drawn:
/// row by row, left to right.
spec fn draw_order(ox: int, oy: int, px: int, py: int) -> int {
    (py - oy) * 8 + (px - ox)
}

proof fn lemma_xor_bits(a: u8, b: u8)
    requires
        a <= 1,
        b <= 1,
    ensures
        (if a != b { 1u8 } else { 0u8 }) == a ^ b,
{
    assert((if a != b { 1u8 } else { 0u8 }) == a ^ b) by (bit_vector)
        requires
            a <= 1,
            b <= 1,
    ;
}

impl Chip8 {
    /// DXYN: draws the `n`-row sprite at the index register at
    /// (VX mod 64, VY mod 32), as `draws` states.
    pub fn draw_sprite(&mut self, x: u8, y: u8, n: u8)
        requires
            old(self).wf(),
            x < 16,
            y < 16,
            n < 16,
        ensures
            final(self).wf(),
            draws(old(self)@, x, y, n, final(self)@),
    {
        let ghost m = self@;
        let ox: u8 = self.v[x as usize] % 64;
        let oy: u8 = self.v[y as usize] % 32;
        let total: usize = n as usize * 8;
        let mut collided = false;
        let mut k: usize = 0;
        while k < total
            invariant
                m.wf(),
                self.wf(),
                x < 16,
                y < 16,
                n < 16,
                ox < 64,
                oy < 32,
                ox as int == m.v[x as int] % 64,
                oy as int == m.v[y as int] % 32,
                total == n * 8,
                k <= total,
                self@ == (MachineState { screen: self@.screen, ..m }),
                forall|px: int, py: int|
                    on_screen(px, py) ==> #[trigger] pixel_at(self@.screen, px, py) == if sprite_covers(
                        ox as int,
                        oy as int,
                        n as int,
                        px,
                        py,
                    ) && draw_order(ox as int, oy as int, px, py) < k {
                        drawn_pixel(m, ox as int, oy as int, n as int, px, py)
                    } else {
                        pixel_at(m.screen, px, py)
                    },
                collided <==> exists|px: int, py: int|
                    #[trigger] collision_at(m, ox as int, oy as int, n as int, px, py)
                        && draw_order(ox as int, oy as int, px, py) < k,
            decreases total - k,
        {
            let row: usize = k / 8;
            let col: usize = k % 8;
            let bits = self.memory[(self.i + row) % MEMORY_SIZE];
            let shift: u8 = 7 - col as u8;
            let bit: u8 = (bits >> shift) & 1;
            let cx: u8 = ox + col as u8;
            let cy: u8 = oy + row as u8;
            let ghost before = self@.screen;
            let ghost was_collided = collided;
            proof {
                assert(bit == sprite_bit(m.memory, m.i, ox as int, oy as int, cx as int, cy as int));
                assert(bit <= 1) by (bit_vector)
                    requires
                        bit == (bits >> shift) & 1,
                ;
                assert(sprite_covers(ox as int, oy as int, n as int, cx as int, cy as int));
                assert(draw_order(ox as int, oy as int, cx as int, cy as int) == k);
                assert forall|px: int, py: int|
                    sprite_covers(ox as int, oy as int, n as int, px, py) && draw_order(
                        ox as int,
                        oy as int,
                        px,
                        py,
                    ) == k implies px == cx && py == cy by {}
            }
            let mut result: u8 = 0;
            if cx < SCREEN_WIDTH && cy < SCREEN_HEIGHT {
                result = self.xor_pixel(cx, cy, bit);
                if bit == 1 && result == 0 {
                    collided = true;
                }
            }
            proof {
                if on_screen(cx as int, cy as int) {
                    crate::display::lemma_pixel_is_bit(before, cx as int, cy as int);
                    lemma_xor_bits(pixel_at(m.screen, cx as int, cy as int), bit);
                    assert forall|px: int, py: int| on_screen(px, py) implies #[trigger] pixel_at(
                        self@.screen,
                        px,
                        py,
                    ) == if sprite_covers(ox as int, oy as int, n as int, px, py) && draw_order(
                        ox as int,
                        oy as int,
                        px,
                        py,
                    ) < k + 1 {
                        drawn_pixel(m, ox as int, oy as int, n as int, px, py)
                    } else {
                        pixel_at(m.screen, px, py)
                    } by {
                        crate::display::lemma_with_pixel(
                            before,
                            cx as int,
                            cy as int,
                            result,
                            px,
                            py,
                        );
                    }
                    if bit == 1 && result == 0 {
                        assert(collision_at(m, ox as int, oy as int, n as int, cx as int, cy as int));
                    }
                } else {
                    assert forall|px: int, py: int| on_screen(px, py) implies #[trigger] pixel_at(
                        self@.screen,
                        px,
                        py,
                    ) == if sprite_covers(ox as int, oy as int, n as int, px, py) && draw_order(
                        ox as int,
                        oy as int,
                        px,
                        py,
                    ) < k + 1 {
                        drawn_pixel(m, ox as int, oy as int, n as int, px, py)
                    } else {
                        pixel_at(m.screen, px, py)
                    } by {}
                }
                if collided {
                    if !was_collided {
                        assert(collision_at(m, ox as int, oy as int, n as int, cx as int, cy as int)
                            && draw_order(ox as int, oy as int, cx as int, cy as int) < k + 1);
                    }
                } else {
                    assert forall|px: int, py: int|
                        #[trigger] collision_at(m, ox as int, oy as int, n as int, px, py)
                            implies draw_order(ox as int, oy as int, px, py) >= k + 1 by {
                        if draw_order(ox as int, oy as int, px, py) == k {
                            assert(px == cx && py == cy);
                        }
                    }
                }
            }
            k = k + 1;
        }
        proof {
            assert forall|px: int, py: int|
                sprite_covers(ox as int, oy as int, n as int, px, py) implies draw_order(
                ox as int,
                oy as int,
                px,
                py,
            ) < total by {}
        }
        self.v.set(REGISTER_INDEX_FLAG, if collided { 1 } else { 0 });
    }

    /// FX55: copies registers 0 up to but not including X (at most 15) to
    /// successive addresses from the index register.
    pub fn store_registers(&mut self, x: u8)
        requires
            old(self).wf(),
            x < 16,
        ensures
            final(self).wf(),
            final(self)@ == (MachineState {
                memory: stored_registers(old(self)@.memory, old(self)@.i, old(self)@.v, x as int),
                ..old(self)@
            }),
    {
        let count: usize = if (x as usize) < 0xF {
            x as usize
        } else {
            0xF
        };
        assert(stored_registers(old(self)@.memory, old(self)@.i, old(self)@.v, 0)
            =~= old(self)@.memory);
        let mut k: usize = 0;
        while k < count
            invariant
                old(self).wf(),
                self.wf(),
                x < 16,
                count == x,
                k <= count,
                self@ == (MachineState {
                    memory: stored_registers(old(self)@.memory, old(self)@.i, old(self)@.v, k as int),
                    ..old(self)@
                }),
            decreases count - k,
        {
            let ghost before = self.memory@;
            let a: usize = (self.i + k) % MEMORY_SIZE;
            let val = self.v[k];
            self.memory.set(a, val);
            proof {
                let i = old(self)@.i;
                assert forall|b: int| 0 <= b < MEMORY_SIZE implies #[trigger] self.memory@[b] == stored_registers(
                    old(self)@.memory,
                    i,
                    old(self)@.v,
                    k + 1,
                )[b] by {
                    if (b - i) % (MEMORY_SIZE as int) == k {
                        assert(b == a);
                    }
                    if b == a {
                        assert((b - i) % (MEMORY_SIZE as int) == k);
                    }
                }
                assert(self.memory@ =~= stored_registers(old(self)@.memory, i, old(self)@.v, k + 1));
            }
            k = k + 1;
        }
    }

    /// FX65: loads registers 0 up to but not including X (at most 15) from
    /// successive addresses from the index register.
    pub fn load_registers(&mut self, x: u8)
        requires
            old(self).wf(),
            x < 16,
        ensures
            final(self).wf(),
            final(self)@ == (MachineState {
                v: loaded_registers(old(self)@.memory, old(self)@.i, old(self)@.v, x as int),
                ..old(self)@
            }),
    {
        let count: usize = if (x as usize) < 0xF {
            x as usize
        } else {
            0xF
        };
        assert(loaded_registers(old(self)@.memory, old(self)@.i, old(self)@.v, 0) =~= old(self)@.v);
        let mut k: usize = 0;
        while k < count
            invariant
                old(self).wf(),
                self.wf(),
                x < 16,
                count == x,
                k <= count,
                self@ == (MachineState {
                    v: loaded_registers(old(self)@.memory, old(self)@.i, old(self)@.v, k as int),
                    ..old(self)@
                }),
            decreases count - k,
        {
            let val = self.memory[(self.i + k) % MEMORY_SIZE];
            self.v.set(k, val);
            assert(self.v@ =~= loaded_registers(old(self)@.memory, old(self)@.i, old(self)@.v, k + 1));
            k = k + 1;
        }
    }

    /// FX33: writes the hundreds, tens and ones digits of VX at the index
    /// register and the two addresses after it.
    pub fn store_bcd(&mut self, x: u8)
        requires
            old(self).wf(),
            x < 16,
        ensures
            final(self).wf(),
            final(self)@ == (MachineState {
                memory: bcd_written(old(self)@.memory, old(self)@.i, old(self)@.v[x as int]),
                ..old(self)@
            }),
    {
        let b = self.v[x as usize];
        let i = self.i;
        self.memory.set(i, b / 100 % 10);
        self.memory.set((i + 1) % MEMORY_SIZE, b / 10 % 10);
        self.memory.set((i + 2) % MEMORY_SIZE, b % 10);
    }

    /// Performs one fetch-decode-execute step, with `random` as the byte that
    /// CXNN draws.
    pub fn execute_instruction_with_random(&mut self, random: u8) -> (r: StepOutcome)
        requires
            old(self).wf(),
        ensures
            final(self).wf(),
            step(old(self)@, random, final(self)@, r),
    {
        let at = self.pc;
        let instruction = Chip8::read_instruction(&self.memory, at);
        self.pc = (at + 2) % MEMORY_SIZE;
        match decode(instruction) {
            None => StepOutcome::UnknownInstruction { instruction, address: at },
            Some(op) => self.execute_op(op, at, random),
        }
    }

    /// Executes `op`, fetched from `at`, on a machine whose program counter
    /// already points past it.
    #[verifier::spinoff_prover]
    pub fn execute_op(&mut self, op: Op, at: usize, random: u8) -> (r: StepOutcome)
        requires
            old(self).wf(),
            op_fields_in_range(op),
            at < MEMORY_SIZE,
        ensures
            final(self).wf(),
            r == outcome_of(at, op),
            match op {
                Op::Draw { x, y, n } => draws(old(self)@, x, y, n, final(self)@),
                _ => final(self)@ == effect(old(self)@, at, op, random),
            },
    {
        match op {
            Op::ClearScreen => {},
            Op::Return => {},
            Op::Jump { addr } => {
                if addr as usize == at {
                    return StepOutcome::Halted;
                }
                self.pc = addr as usize;
            },
            Op::Call { addr } => {
                let pc = self.pc;
                self.stack.push(pc);
                self.pc = addr as usize;
            },
            Op::SkipIfEqual { x, nn } => {
                if self.v[x as usize] == nn {
                    self.pc = (self.pc + 2) % MEMORY_SIZE;
                }
            },
            Op::SkipIfNotEqual { x, nn } => {
                if self.v[x as usize] != nn {
                    self.pc = (self.pc + 2) % MEMORY_SIZE;
                }
            },
            Op::SkipIfRegistersEqual { x, y } => {
                if self.v[x as usize] == self.v[y as usize] {
                    self.pc = (self.pc + 2) % MEMORY_SIZE;
                }
            },
            Op::SkipIfRegistersNotEqual { x, y } => {
                if self.v[x as usize] != self.v[y as usize] {
                    self.pc = (self.pc + 2) % MEMORY_SIZE;
                }
            },
            Op::SetIndex { addr } => {
                self.i = addr as usize;
            },
            Op::JumpWithOffset { addr } => {
                self.pc = (addr as usize + self.v[0] as usize) % MEMORY_SIZE;
            },
            Op::Draw { x, y, n } => {
                self.draw_sprite(x, y, n);
                return StepOutcome::ScreenChanged;
            },
            Op::SkipIfKey { x } => {
                if self.is_key_pressed(self.v[x as usize]) {
                    self.pc = (self.pc + 2) % MEMORY_SIZE;
                }
            },
            Op::SkipIfNotKey { x } => {
                if !self.is_key_pressed(self.v[x as usize]) {
                    self.pc = (self.pc + 2) % MEMORY_SIZE;
                }
            },
            Op::SetTimer { x } => {
                self.timer = self.v[x as usize];
            },
            Op::SetSoundTimer { .. } => {},
            Op::AddToIndex { x } => {
                self.i = (self.i + self.v[x as usize] as usize) % MEMORY_SIZE;
            },
            Op::WaitForKey { x } => {
                let key = self.get_pressed_key();
                if key != NO_KEY {
                    self.v.set(x as usize, key);
                } else {
                    self.pc = at;
                }
            },
            Op::FontCharacter { x } => {
                self.i = FONT_START_ADDRESS + self.v[x as usize] as usize * 5;
            },
            Op::BinaryCodedDecimal { x } => {
                self.store_bcd(x);
            },
            Op::StoreRegisters { x } => {
                self.store_registers(x);
            },
            Op::LoadRegisters { x } => {
                self.load_registers(x);
            },
                    _ => {
                self.execute_register_op(op, random);
            },
        }
        StepOutcome::Continue
    }

    /// Executes an operation that only writes registers.
    #[verifier::spinoff_prover]
    fn execute_register_op(&mut self, op: Op, random: u8)
        requires
            old(self).wf(),
            op_fields_in_range(op),
        ensures
            final(self).wf(),
            is_register_op(op) ==> final(self)@ == effect(old(self)@, 0, op, random),
            !is_register_op(op) ==> *final(self) == *old(self),
    {
        match op {
            Op::Load { x, nn } => {
                self.v.set(x as usize, nn);
            },
            Op::AddImmediate { x, nn } => {
                let sum = self.v[x as usize].wrapping_add(nn);
                self.v.set(x as usize, sum);
            },
            Op::Copy { x, y } => {
                let b = self.v[y as usize];
                self.v.set(x as usize, b);
            },
            Op::Or { x, y } => {
                let b = self.v[x as usize] | self.v[y as usize];
                self.v.set(x as usize, b);
            },
            Op::And { x, y } => {
                let b = self.v[x as usize] & self.v[y as usize];
                self.v.set(x as usize, b);
            },
            Op::Xor { x, y } => {
                let b = self.v[x as usize] ^ self.v[y as usize];
                self.v.set(x as usize, b);
            },
            Op::Random { x, nn } => {
                self.v.set(x as usize, random & nn);
            },
            Op::GetTimer { x } => {
                let t = self.timer;
                self.v.set(x as usize, t);
            },
            _ => {
                self.execute_flag_op(op);
            },
        }
    }

    /// Executes an operation that writes a register and the flag register.
    #[verifier::spinoff_prover]
    fn execute_flag_op(&mut self, op: Op)
        requires
            old(self).wf(),
            op_fields_in_range(op),
        ensures
            final(self).wf(),
            is_flag_op(op) ==> final(self)@ == effect(old(self)@, 0, op, 0),
            !is_flag_op(op) ==> *final(self) == *old(self),
    {
        match op {
            Op::AddRegisters { x, y } => {
                let sum: u16 = self.v[x as usize] as u16 + self.v[y as usize] as u16;
                self.v.set(REGISTER_INDEX_FLAG, if sum > 0xFF { 1 } else { 0 });
                self.v.set(x as usize, (sum % 0x100) as u8);
            },
            Op::Subtract { x, y } => {
                let a = self.v[x as usize];
                let b = self.v[y as usize];
                self.v.set(x as usize, a.wrapping_sub(b));
                self.v.set(REGISTER_INDEX_FLAG, if a < b { 0 } else { 1 });
            },
            Op::ShiftRight { x } => {
                let flag = self.v[x as usize] & 0b0000_0001;
                self.v.set(REGISTER_INDEX_FLAG, flag);
                let b = self.v[x as usize];
                self.v.set(x as usize, b >> 1);
            },
            Op::SubtractFrom { x, y } => {
                let a = self.v[x as usize];
                let b = self.v[y as usize];
                self.v.set(x as usize, b.wrapping_sub(a));
                self.v.set(REGISTER_INDEX_FLAG, if b < a { 0 } else { 1 });
            },
            Op::ShiftLeft { x } => {
                let flag = (self.v[x as usize] & 0b1000_0000) >> 7;
                self.v.set(REGISTER_INDEX_FLAG, flag);
                let b = self.v[x as usize];
                let shifted = b << 1;
                assert(shifted == ((b * 2) % 256) as u8) by (bit_vector)
                    requires
                        shifted == b << 1,
                ;
                self.v.set(x as usize, shifted);
            },
            _ => {},
        }
    }

    /// Performs one fetch-decode-execute step, drawing a random byte for
    /// CXNN; the step is as `step` states for some byte.
    pub fn execute_instruction(&mut self) -> (r: StepOutcome)
        requires
            old(self).wf(),
        ensures
            final(self).wf(),
            exists|random: u8| #[trigger] step(old(self)@, random, final(self)@, r),
    {
        let random = random_byte();
        self.execute_instruction_with_random(random)
    }
}

/// Relies on `rand::random::<u8>`, which draws a byte from the thread-local
/// generator; nothing is promised of its value.
#[verifier::external_body]
fn random_byte() -> (r: u8) {
    rand::random::<u8>()
}

} // verus!
