//! What one cycle does to the machine, instruction by instruction.
//!
//! Addresses are twelve bits wide: the program counter, and every address
//! formed from `I`, wrap around at the end of memory. A sprite that reaches
//! past an edge of the display continues at the opposite edge. A key is
//! named by the low four bits of a register. Where an instruction writes
//! both `VF` and `Vx`, the two writes happen in the order given here, and the
//! second one sees the first.

use vstd::prelude::*;
use crate::instruction::{decode_word, Instruction};
use crate::state::{Fault, MachineState, Outcome};

verus! {

/// `1` if `b` holds, else `0`.
pub open spec fn flag(b: bool) -> u8 {
    if b {
        1
    } else {
        0
    }
}

/// The word at the program counter, high byte first.
pub open spec fn fetch_word(s: MachineState) -> u16 {
    (s.memory[s.pc] as int * 256 + s.memory[(s.pc + 1) % 4096] as int) as u16
}

/// Whether bit `col` of a sprite row is set, counting from the most
/// significant bit.
pub open spec fn row_bit(row: u8, col: u8) -> bool {
    row & (0x80u8 >> col) != 0
}

/// Whether the sprite of `rows` rows stored at address `i`, drawn with its
/// top left corner at `(x0, y0)`, has a set bit on pixel `p`. The pixel lies
/// `col` columns right of the corner and `row` lines below it, counted
/// around the edges of the display; the sprite is 8 columns wide.
pub open spec fn sprite_covers(
    memory: Seq<u8>,
    i: int,
    x0: int,
    y0: int,
    rows: int,
    p: int,
) -> bool {
    let col = (p % 64 - x0) % 64;
    let row = (p / 64 - y0) % 32;
    col < 8 && row < rows && row_bit(memory[(i + row) % 4096], col as u8)
}

/// The display after drawing the sprite: every covered pixel is flipped.
pub open spec fn draw_sprite(
    gfx: Seq<bool>,
    memory: Seq<u8>,
    i: int,
    x0: int,
    y0: int,
    rows: int,
) -> Seq<bool> {
    Seq::new(2048, |p: int| gfx[p] != sprite_covers(memory, i, x0, y0, rows, p))
}

/// Whether drawing the sprite turns a lit pixel off.
pub open spec fn sprite_collides(
    gfx: Seq<bool>,
    memory: Seq<u8>,
    i: int,
    x0: int,
    y0: int,
    rows: int,
) -> bool {
    exists|p: int| 0 <= p < 2048 && gfx[p] && #[trigger] sprite_covers(memory, i, x0, y0, rows, p)
}

/// The highest key below `n` that is held down, if there is one.
pub open spec fn last_pressed(keys: Seq<bool>, n: nat) -> Option<u8>
    decreases n,
{
    if n == 0 {
        None
    } else if keys[n - 1] {
        Some((n - 1) as u8)
    } else {
        last_pressed(keys, (n - 1) as nat)
    }
}

/// Memory after storing `V0..=Vx` at `I` onwards.
pub open spec fn stored_registers(s: MachineState, x: int) -> Seq<u8> {
    Seq::new(
        4096,
        |a: int|
            if (a - s.i) % 4096 <= x {
                s.v[(a - s.i) % 4096]
            } else {
                s.memory[a]
            },
    )
}

/// The registers after loading `V0..=Vx` from `I` onwards.
pub open spec fn loaded_registers(s: MachineState, x: int) -> Seq<u8> {
    Seq::new(
        16,
        |k: int|
            if k <= x {
                s.memory[(s.i + k) % 4096]
            } else {
                s.v[k]
            },
    )
}

/// `1nnn`: the program counter becomes `a`.
pub open spec fn jump(s: MachineState, a: int) -> MachineState {
    MachineState { pc: a, ..s }
}

/// `Bnnn`: the program counter becomes `a + V0`, wrapping at the end of
/// memory.
pub open spec fn jump_offset(s: MachineState, a: int) -> MachineState {
    MachineState { pc: (a + s.v[0]) % 4096, ..s }
}

/// `Annn`: `I` becomes `a`.
pub open spec fn load_index(s: MachineState, a: int) -> MachineState {
    MachineState { i: a, ..s }.advance(2)
}

/// `Fx15`: the delay timer becomes `Vx`.
pub open spec fn set_delay(s: MachineState, x: int) -> MachineState {
    MachineState { delay_timer: s.v[x], ..s }.advance(2)
}

/// `Fx18`: the sound timer becomes `Vx`.
pub open spec fn set_sound(s: MachineState, x: int) -> MachineState {
    MachineState { sound_timer: s.v[x], ..s }.advance(2)
}

/// `Fx55`: `V0..=Vx` are stored at `I` onwards; `I` stays.
pub open spec fn store_registers(s: MachineState, x: int) -> MachineState {
    MachineState { memory: stored_registers(s, x), ..s }.advance(2)
}

/// `Fx65`: `V0..=Vx` are loaded from `I` onwards; `I` stays.
pub open spec fn load_registers(s: MachineState, x: int) -> MachineState {
    MachineState { v: loaded_registers(s, x), ..s }.advance(2)
}

/// The key that register `x` names: its low four bits.
pub open spec fn key_named(s: MachineState, x: int) -> int {
    s.v[x] as int % 16
}

/// `00E0`: the display is blank and marked as changed.
pub open spec fn clear_screen(s: MachineState) -> MachineState {
    MachineState { gfx: Seq::new(2048, |p: int| false), draw_flag: true, ..s }.advance(2)
}

/// `00EE`: the newest return address leaves the stack and becomes the
/// program counter; with an empty stack the machine halts instead.
pub open spec fn return_from(s: MachineState) -> MachineState {
    if s.stack.len() == 0 {
        s.halted(Fault::StackUnderflow)
    } else {
        MachineState { pc: s.stack.last() as int, stack: s.stack.drop_last(), ..s }
    }
}

/// `2nnn`: the address of the next instruction goes onto the stack and the
/// program counter becomes `a`; with a full stack the machine halts instead.
pub open spec fn call(s: MachineState, a: int) -> MachineState {
    if s.stack.len() >= 16 {
        s.halted(Fault::StackOverflow)
    } else {
        MachineState { pc: a, stack: s.stack.push(((s.pc + 2) % 4096) as u16), ..s }
    }
}

/// `Vx := b`, then on to the next instruction.
pub open spec fn assign(s: MachineState, x: int, b: u8) -> MachineState {
    s.with_v(x, b).advance(2)
}

/// `8xy4`: `VF` gets the carry of `Vx + Vy`, then `Vx` the sum modulo 256.
pub open spec fn add_registers(s: MachineState, x: int, y: int) -> MachineState {
    let sum = s.v[x] + s.v[y];
    s.with_v(15, flag(sum > 255)).with_v(x, (sum % 256) as u8).advance(2)
}

/// `8xy5`: `VF` gets 1 if `Vx >= Vy` and else 0, then `Vx` gets `Vx - Vy`
/// modulo 256.
pub open spec fn subtract_registers(s: MachineState, x: int, y: int) -> MachineState {
    let t = s.with_v(15, flag(s.v[x] >= s.v[y]));
    t.with_v(x, ((t.v[x] - t.v[y]) % 256) as u8).advance(2)
}

/// `8xy7`: `VF` gets 1 if `Vy >= Vx` and else 0, then `Vx` gets `Vy - Vx`
/// modulo 256.
pub open spec fn subtract_from_register(s: MachineState, x: int, y: int) -> MachineState {
    let t = s.with_v(15, flag(s.v[y] >= s.v[x]));
    t.with_v(x, ((t.v[y] - t.v[x]) % 256) as u8).advance(2)
}

/// `8xy6`: `VF` gets the lowest bit of `Vx`, then `Vx` is halved.
pub open spec fn shift_right(s: MachineState, x: int) -> MachineState {
    let t = s.with_v(15, s.v[x] % 2);
    t.with_v(x, t.v[x] / 2).advance(2)
}

/// `8xyE`: `VF` gets the highest bit of `Vx`, then `Vx` is doubled modulo
/// 256.
pub open spec fn shift_left(s: MachineState, x: int) -> MachineState {
    let t = s.with_v(15, s.v[x] / 128);
    t.with_v(x, ((t.v[x] * 2) % 256) as u8).advance(2)
}

/// `Dxyn`: the sprite is drawn at `(Vx, Vy)`, the display is marked as
/// changed, and `VF` tells whether a lit pixel went dark.
pub open spec fn draw(s: MachineState, x: int, y: int, rows: int) -> MachineState {
    let x0 = s.v[x] as int;
    let y0 = s.v[y] as int;
    MachineState {
        gfx: draw_sprite(s.gfx, s.memory, s.i, x0, y0, rows),
        draw_flag: true,
        ..s
    }.with_v(15, flag(sprite_collides(s.gfx, s.memory, s.i, x0, y0, rows))).advance(2)
}

/// `Fx0A`: with a key down, `Vx` gets the highest such key and the machine
/// moves on; with none, nothing changes.
pub open spec fn wait_key(s: MachineState, x: int) -> MachineState {
    match last_pressed(s.keys, 16) {
        Some(k) => s.with_v(x, k).advance(2),
        None => s,
    }
}

/// `Fx1E`: `VF` tells whether `I + Vx` exceeds `0xFFF`, and `I` gets the sum
/// modulo 4096.
pub open spec fn add_index(s: MachineState, x: int) -> MachineState {
    let sum = s.i + s.v[x];
    MachineState { i: sum % 4096, ..s.with_v(15, flag(sum > 0xFFF)) }.advance(2)
}

/// `Fx33`: the hundreds, tens and units of `Vx` go to `I`, `I + 1`, `I + 2`.
pub open spec fn store_digits(s: MachineState, x: int) -> MachineState {
    let b = s.v[x];
    s.with_byte(s.i, b / 100).with_byte((s.i + 1) % 4096, (b / 10) % 10).with_byte(
        (s.i + 2) % 4096,
        b % 10,
    ).advance(2)
}

/// The state after executing `ins`, where `random` is the byte that `Cxnn`
/// draws.
pub open spec fn perform(s: MachineState, ins: Instruction, random: u8) -> MachineState {
    match ins {
        Instruction::ClearScreen => clear_screen(s),
        Instruction::Return => return_from(s),
        Instruction::Jump(a) => jump(s, a as int),
        Instruction::Call(a) => call(s, a as int),
        Instruction::SkipIfEqual(x, nn) => s.skip_if(s.v[x as int] == nn),
        Instruction::SkipIfNotEqual(x, nn) => s.skip_if(s.v[x as int] != nn),
        Instruction::SkipIfSame(x, y) => s.skip_if(s.v[x as int] == s.v[y as int]),
        Instruction::LoadByte(x, nn) => assign(s, x as int, nn),
        Instruction::AddByte(x, nn) => assign(s, x as int, ((s.v[x as int] + nn) % 256) as u8),
        Instruction::Copy(x, y) => assign(s, x as int, s.v[y as int]),
        Instruction::Or(x, y) => assign(s, x as int, s.v[x as int] | s.v[y as int]),
        Instruction::And(x, y) => assign(s, x as int, s.v[x as int] & s.v[y as int]),
        Instruction::Xor(x, y) => assign(s, x as int, s.v[x as int] ^ s.v[y as int]),
        Instruction::Add(x, y) => add_registers(s, x as int, y as int),
        Instruction::Subtract(x, y) => subtract_registers(s, x as int, y as int),
        Instruction::ShiftRight(x) => shift_right(s, x as int),
        Instruction::SubtractFrom(x, y) => subtract_from_register(s, x as int, y as int),
        Instruction::ShiftLeft(x) => shift_left(s, x as int),
        Instruction::SkipIfDifferent(x, y) => s.skip_if(s.v[x as int] != s.v[y as int]),
        Instruction::LoadIndex(a) => load_index(s, a as int),
        Instruction::JumpOffset(a) => jump_offset(s, a as int),
        Instruction::Random(x, nn) => assign(s, x as int, random & nn),
        Instruction::Draw(x, y, n) => draw(s, x as int, y as int, n as int),
        Instruction::SkipIfKey(x) => s.skip_if(s.keys[key_named(s, x as int)]),
        Instruction::SkipIfNoKey(x) => s.skip_if(!s.keys[key_named(s, x as int)]),
        Instruction::ReadDelay(x) => assign(s, x as int, s.delay_timer),
        Instruction::WaitKey(x) => wait_key(s, x as int),
        Instruction::SetDelay(x) => set_delay(s, x as int),
        Instruction::SetSound(x) => set_sound(s, x as int),
        Instruction::AddIndex(x) => add_index(s, x as int),
        Instruction::StoreDigits(x) => store_digits(s, x as int),
        Instruction::StoreRegisters(x) => store_registers(s, x as int),
        Instruction::LoadRegisters(x) => load_registers(s, x as int),
        Instruction::Unknown(_) => s.advance(2),
    }
}

/// An instruction with operands in range takes a well-formed state to a
/// well-formed state.
pub proof fn lemma_perform_wf(s: MachineState, ins: Instruction, random: u8)
    requires
        s.wf(),
        ins.wf(),
    ensures
        perform(s, ins, random).wf(),
{
}

/// What executing `ins` in state `s` reports.
pub open spec fn outcome_of(s: MachineState, ins: Instruction) -> Outcome {
    match ins {
        Instruction::Return => if s.stack.len() == 0 {
            Outcome::Halted(Fault::StackUnderflow)
        } else {
            Outcome::Executed
        },
        Instruction::Call(_) => if s.stack.len() >= 16 {
            Outcome::Halted(Fault::StackOverflow)
        } else {
            Outcome::Executed
        },
        Instruction::WaitKey(_) => if last_pressed(s.keys, 16) is None {
            Outcome::AwaitingKey
        } else {
            Outcome::Executed
        },
        Instruction::Unknown(opcode) => Outcome::UnknownOpcode(opcode),
        _ => Outcome::Executed,
    }
}

/// The state after executing the word `opcode`: a halted machine stays as it
/// is.
pub open spec fn execute_word(s: MachineState, opcode: u16, random: u8) -> MachineState {
    match s.fault {
        Some(_) => s,
        None => perform(s, decode_word(opcode), random),
    }
}

/// What executing the word `opcode` reports.
pub open spec fn execute_outcome(s: MachineState, opcode: u16) -> Outcome {
    match s.fault {
        Some(fault) => Outcome::Halted(fault),
        None => outcome_of(s, decode_word(opcode)),
    }
}

/// The state after one cycle: fetch the word at the program counter and
/// execute it.
pub open spec fn step(s: MachineState, random: u8) -> MachineState {
    execute_word(s, fetch_word(s), random)
}

/// What one cycle reports.
pub open spec fn step_outcome(s: MachineState) -> Outcome {
    execute_outcome(s, fetch_word(s))
}

/// Whether the next cycle draws a random byte: the machine runs and the word
/// at the program counter is a `Cxnn`.
pub open spec fn draws_random(s: MachineState) -> bool {
    s.fault is None && decode_word(fetch_word(s)) is Random
}

/// Only `Cxnn` looks at the random byte: a cycle that draws none ends in the
/// same state whatever the byte.
pub proof fn lemma_random_unused(s: MachineState, r1: u8, r2: u8)
    requires
        !draws_random(s),
    ensures
        step(s, r1) == step(s, r2),
{
}

/// The state after one tick of the timers: each timer above zero goes down
/// by one.
pub open spec fn tick(s: MachineState) -> MachineState {
    MachineState {
        delay_timer: if s.delay_timer > 0 {
            (s.delay_timer - 1) as u8
        } else {
            0
        },
        sound_timer: if s.sound_timer > 0 {
            (s.sound_timer - 1) as u8
        } else {
            0
        },
        ..s
    }
}

/// Whether a tick in state `s` ends a tone: the sound timer goes from 1 to 0.
pub open spec fn tone_ends(s: MachineState) -> bool {
    s.sound_timer == 1
}

} // verus!
