//! Laws of the machine, each proved of every state.

use vstd::prelude::*;
use crate::font::FONT_SET;
use crate::instruction::{decode_word, family_of, lemma_decode_wf, nn_of, x_of, Instruction};
use crate::semantics::{
    call, draw, draw_sprite, execute_outcome, execute_word, fetch_word, flag, last_pressed,
    lemma_perform_wf, load_registers, outcome_of, perform, return_from, row_bit,
    sprite_collides, sprite_covers, step, step_outcome, store_digits, store_registers, tick,
};
use crate::state::{loaded_state, reset_state, Fault, MachineState, Outcome};

verus! {

/// After a reset every byte of every glyph stands at its place: row `row` of
/// the glyph for digit `digit` is at address `5 * digit + row`.
pub proof fn lemma_reset_places_font(digit: int, row: int)
    requires
        0 <= digit < 16,
        0 <= row < 5,
    ensures
        reset_state().memory[5 * digit + row] == FONT_SET[5 * digit + row],
        reset_state().wf(),
{
}

/// Loading a program leaves the font where a reset put it.
pub proof fn lemma_load_keeps_font(image: Seq<u8>, a: int)
    requires
        0 <= a < 80,
    ensures
        loaded_state(image).memory[a] == FONT_SET[a],
{
}

/// A loaded image stands in memory from `0x200` on, byte for byte, and the
/// machine is ready to run it.
pub proof fn lemma_load_places_image(image: Seq<u8>, k: int)
    requires
        image.len() <= 3584,
        0 <= k < image.len(),
    ensures
        loaded_state(image).wf(),
        loaded_state(image).pc == 0x200,
        loaded_state(image).fault is None,
        loaded_state(image).memory[0x200 + k] == image[k],
{
}

/// Byte `k` of an image, or zero past its end.
pub open spec fn image_byte(image: Seq<u8>, k: int) -> u8 {
    if k < image.len() {
        image[k]
    } else {
        0
    }
}

/// The first cycle after a load fetches the first two bytes of the image
/// loaded last (zero where the image is shorter) and executes that word,
/// whatever the machine held before.
pub proof fn lemma_load_then_step(image: Seq<u8>, random: u8)
    requires
        image.len() <= 3584,
    ensures
        fetch_word(loaded_state(image)) == image_byte(image, 0) * 256 + image_byte(image, 1),
        step(loaded_state(image), random) == perform(
            loaded_state(image),
            decode_word(fetch_word(loaded_state(image))),
            random,
        ),
        step_outcome(loaded_state(image)) == outcome_of(
            loaded_state(image),
            decode_word(fetch_word(loaded_state(image))),
        ),
{
    let s = loaded_state(image);
    assert(s.memory[0x200] == image_byte(image, 0));
    assert(s.memory[0x201] == image_byte(image, 1));
}

/// Every cycle takes a well-formed state to a well-formed state.
pub proof fn lemma_step_wf(s: MachineState, random: u8)
    requires
        s.wf(),
    ensures
        step(s, random).wf(),
{
    lemma_decode_wf(fetch_word(s));
    lemma_perform_wf(s, decode_word(fetch_word(s)), random);
}

/// Where the program counter goes. An instruction that is no jump, call,
/// return, skip or wait moves it on by 2; a skip moves it on by 2 or by 4;
/// an unknown word counts as an instruction that does nothing.
pub proof fn lemma_program_counter_moves(s: MachineState, ins: Instruction, random: u8)
    requires
        s.wf(),
        ins.wf(),
    ensures
        match ins {
            Instruction::Jump(a) => perform(s, ins, random).pc == a,
            Instruction::JumpOffset(a) => perform(s, ins, random).pc == (a + s.v[0]) % 4096,
            Instruction::Call(a) => perform(s, ins, random).pc == if s.stack.len() < 16 {
                a as int
            } else {
                s.pc
            },
            Instruction::Return => perform(s, ins, random).pc == if s.stack.len() > 0 {
                s.stack.last() as int
            } else {
                s.pc
            },
            Instruction::SkipIfEqual(_, _)
            | Instruction::SkipIfNotEqual(_, _)
            | Instruction::SkipIfSame(_, _)
            | Instruction::SkipIfDifferent(_, _)
            | Instruction::SkipIfKey(_)
            | Instruction::SkipIfNoKey(_) => perform(s, ins, random).pc == (s.pc + 2) % 4096
                || perform(s, ins, random).pc == (s.pc + 4) % 4096,
            Instruction::WaitKey(_) => perform(s, ins, random).pc == if last_pressed(s.keys, 16)
                is Some {
                (s.pc + 2) % 4096
            } else {
                s.pc
            },
            _ => perform(s, ins, random).pc == (s.pc + 2) % 4096,
        },
{
}

/// A word that is no instruction is skipped and reported: the program
/// counter moves on by 2, nothing else changes, and the machine keeps
/// running.
pub proof fn lemma_unknown_is_skipped(s: MachineState, opcode: u16, random: u8)
    requires
        s.fault is None,
        decode_word(opcode) is Unknown,
    ensures
        execute_word(s, opcode, random) == s.advance(2),
        execute_outcome(s, opcode) == Outcome::UnknownOpcode(opcode),
{
}

/// A call followed by a return comes back to the instruction after the
/// call, with the stack as it was.
pub proof fn lemma_call_then_return(s: MachineState, a: int)
    requires
        s.wf(),
        s.stack.len() < 16,
    ensures
        return_from(call(s, a)) == (MachineState { pc: (s.pc + 2) % 4096, ..s }),
{
    assert(s.stack.push(((s.pc + 2) % 4096) as u16).drop_last() =~= s.stack);
}

/// The three bytes that `Fx33` stores are decimal digits, and they make up
/// `Vx`: hundreds at `I`, tens at `I + 1`, units at `I + 2`.
pub proof fn lemma_digits_recompose(s: MachineState, x: int)
    requires
        s.wf(),
        0 <= x < 16,
    ensures
        ({
            let t = store_digits(s, x);
            let h = t.memory[s.i];
            let d = t.memory[(s.i + 1) % 4096];
            let u = t.memory[(s.i + 2) % 4096];
            h < 10 && d < 10 && u < 10 && 100 * h + 10 * d + u == s.v[x]
        }),
{
}

/// Storing `V0..=Vx` and loading them again gives the registers back.
pub proof fn lemma_store_then_load(s: MachineState, x: int)
    requires
        s.wf(),
        0 <= x < 16,
    ensures
        load_registers(store_registers(s, x), x).v == s.v,
{
    let t = store_registers(s, x);
    let u = load_registers(t, x);
    assert forall|k: int| 0 <= k < 16 implies u.v[k] == s.v[k] by {
        if k <= x {
            assert(((s.i + k) % 4096 - s.i) % 4096 == k);
        }
    }
    assert(u.v =~= s.v);
}

/// A tick of the timers takes each timer down by one and never below zero,
/// and touches nothing else.
pub proof fn lemma_tick_counts_down(s: MachineState)
    ensures
        tick(s).delay_timer == if s.delay_timer == 0 {
            0
        } else {
            s.delay_timer - 1
        },
        tick(s).sound_timer == if s.sound_timer == 0 {
            0
        } else {
            s.sound_timer - 1
        },
        tick(s) == (MachineState {
            delay_timer: tick(s).delay_timer,
            sound_timer: tick(s).sound_timer,
            ..s
        }),
{
}

/// `6xnn` is idempotent: executing the same word a second time leaves every
/// register as the first time left it, and on a running machine that is with
/// `Vx == nn`.
pub proof fn lemma_load_byte_idempotent(s: MachineState, opcode: u16, r1: u8, r2: u8)
    requires
        s.wf(),
        family_of(opcode) == 6,
    ensures
        s.fault is None ==> execute_word(s, opcode, r1).v[x_of(opcode) as int] == nn_of(opcode),
        execute_word(execute_word(s, opcode, r1), opcode, r2).v == execute_word(s, opcode, r1).v,
{
    let t = execute_word(s, opcode, r1);
    let u = execute_word(t, opcode, r2);
    assert(decode_word(opcode) == Instruction::LoadByte(x_of(opcode), nn_of(opcode)));
    assert(u.v =~= t.v);
}

/// Where a sprite lands: bit `col` of row `row` covers the pixel in column
/// `(x0 + col) mod 64` of line `(y0 + row) mod 32`, and covers it exactly if
/// the bit is set.
pub proof fn lemma_sprite_bit_lands(
    memory: Seq<u8>,
    i: int,
    x0: int,
    y0: int,
    rows: int,
    row: int,
    col: int,
)
    requires
        0 <= row < rows <= 32,
        0 <= col < 8,
    ensures
        sprite_covers(memory, i, x0, y0, rows, 64 * ((y0 + row) % 32) + (x0 + col) % 64)
            == row_bit(memory[(i + row) % 4096], col as u8),
{
    let p = 64 * ((y0 + row) % 32) + (x0 + col) % 64;
    assert(p % 64 == (x0 + col) % 64 && p / 64 == (y0 + row) % 32);
    assert((p % 64 - x0) % 64 == col);
    assert((p / 64 - y0) % 32 == row);
}

/// Drawing a sprite twice at one place gives the display back as it was.
pub proof fn lemma_draw_sprite_twice(
    gfx: Seq<bool>,
    memory: Seq<u8>,
    i: int,
    x0: int,
    y0: int,
    rows: int,
)
    requires
        gfx.len() == 2048,
    ensures
        draw_sprite(draw_sprite(gfx, memory, i, x0, y0, rows), memory, i, x0, y0, rows) == gfx,
{
    let once = draw_sprite(gfx, memory, i, x0, y0, rows);
    let twice = draw_sprite(once, memory, i, x0, y0, rows);
    assert(twice =~= gfx);
}

/// The second of two draws at one place reports a collision exactly if the
/// sprite has a set bit on a pixel that was dark before the first draw.
pub proof fn lemma_second_draw_collides(
    gfx: Seq<bool>,
    memory: Seq<u8>,
    i: int,
    x0: int,
    y0: int,
    rows: int,
)
    requires
        gfx.len() == 2048,
    ensures
        sprite_collides(draw_sprite(gfx, memory, i, x0, y0, rows), memory, i, x0, y0, rows) == (
        exists|p: int|
            0 <= p < 2048 && !gfx[p] && #[trigger] sprite_covers(memory, i, x0, y0, rows, p)),
{
    let once = draw_sprite(gfx, memory, i, x0, y0, rows);
    if sprite_collides(once, memory, i, x0, y0, rows) {
        let p = choose|p: int|
            0 <= p < 2048 && once[p] && #[trigger] sprite_covers(memory, i, x0, y0, rows, p);
        assert(!gfx[p] && sprite_covers(memory, i, x0, y0, rows, p));
    }
    if exists|p: int|
        0 <= p < 2048 && !gfx[p] && #[trigger] sprite_covers(memory, i, x0, y0, rows, p) {
        let p = choose|p: int|
            0 <= p < 2048 && !gfx[p] && #[trigger] sprite_covers(memory, i, x0, y0, rows, p);
        assert(once[p] && sprite_covers(memory, i, x0, y0, rows, p));
    }
}

/// `Dxyn` executed twice, with neither `x` nor `y` naming `VF`, gives the
/// display back as it was. `VF` after the first draw tells whether the
/// sprite met a lit pixel, and after the second whether it has a set bit on
/// a pixel that was dark at first: on a blank display the first draw reports
/// no collision, and the second reports one for any sprite that shows at
/// all.
pub proof fn lemma_draw_twice(s: MachineState, x: int, y: int, rows: int)
    requires
        s.wf(),
        0 <= x < 15,
        0 <= y < 15,
        0 <= rows < 16,
    ensures
        draw(draw(s, x, y, rows), x, y, rows).gfx == s.gfx,
        draw(s, x, y, rows).v[15] == flag(
            exists|p: int|
                0 <= p < 2048 && s.gfx[p] && #[trigger] sprite_covers(
                    s.memory,
                    s.i,
                    s.v[x] as int,
                    s.v[y] as int,
                    rows,
                    p,
                ),
        ),
        draw(draw(s, x, y, rows), x, y, rows).v[15] == flag(
            exists|p: int|
                0 <= p < 2048 && !s.gfx[p] && #[trigger] sprite_covers(
                    s.memory,
                    s.i,
                    s.v[x] as int,
                    s.v[y] as int,
                    rows,
                    p,
                ),
        ),
{
    let x0 = s.v[x] as int;
    let y0 = s.v[y] as int;
    lemma_draw_sprite_twice(s.gfx, s.memory, s.i, x0, y0, rows);
    lemma_second_draw_collides(s.gfx, s.memory, s.i, x0, y0, rows);
}

/// Only clearing the screen and drawing a sprite change the display, and
/// whenever a cycle changes it the display is marked as changed.
pub proof fn lemma_display_changes_are_marked(s: MachineState, random: u8)
    requires
        s.wf(),
    ensures
        step(s, random).gfx != s.gfx ==> step(s, random).draw_flag,
        step(s, random).gfx != s.gfx ==> decode_word(fetch_word(s)) is ClearScreen || decode_word(
            fetch_word(s),
        ) is Draw,
{
}

/// No cycle writes the key latch.
pub proof fn lemma_step_keeps_keys(s: MachineState, random: u8)
    ensures
        step(s, random).keys == s.keys,
{
}

/// `00EE` with an empty stack is a fault, not a silent no-op: the machine
/// halts with `StackUnderflow` and reports it.
pub proof fn lemma_return_on_empty_stack(s: MachineState, random: u8)
    requires
        s.fault is None,
        s.stack.len() == 0,
    ensures
        execute_word(s, 0x00EE, random) == s.halted(Fault::StackUnderflow),
        execute_outcome(s, 0x00EE) == Outcome::Halted(Fault::StackUnderflow),
{
}

/// `2nnn` with a full stack halts the machine with `StackOverflow`.
pub proof fn lemma_call_on_full_stack(s: MachineState, opcode: u16, random: u8)
    requires
        s.fault is None,
        s.stack.len() >= 16,
        family_of(opcode) == 2,
    ensures
        execute_word(s, opcode, random) == s.halted(Fault::StackOverflow),
        execute_outcome(s, opcode) == Outcome::Halted(Fault::StackOverflow),
{
}

/// A halted machine makes no progress: whatever word it is given, its state
/// stays and its fault is reported again. Only a reset or a load ends this.
pub proof fn lemma_halted_stays(s: MachineState, fault: Fault, opcode: u16, random: u8)
    requires
        s.fault == Some(fault),
    ensures
        execute_word(s, opcode, random) == s,
        execute_outcome(s, opcode) == Outcome::Halted(fault),
        step(s, random) == s,
        step_outcome(s) == Outcome::Halted(fault),
{
}

/// What `last_pressed` finds: nothing exactly if no key below `n` is down,
/// and else a key that is down with no key down above it.
pub proof fn lemma_last_pressed(keys: Seq<bool>, n: nat)
    requires
        n <= 16,
    ensures
        last_pressed(keys, n) is None <==> forall|k: int| 0 <= k < n ==> !keys[k],
        last_pressed(keys, n) matches Some(k) ==> k < n && keys[k as int] && forall|j: int|
            k < j < n ==> !keys[j],
    decreases n,
{
    if n > 0 {
        lemma_last_pressed(keys, (n - 1) as nat);
    }
}

/// `Fx0A` with no key down changes nothing: the program counter stays on the
/// instruction and `Vx` keeps its value, so the next cycle asks again.
pub proof fn lemma_wait_key_blocks(s: MachineState, opcode: u16, random: u8)
    requires
        s.wf(),
        family_of(opcode) == 0xF,
        nn_of(opcode) == 0x0A,
        forall|k: int| 0 <= k < 16 ==> !s.keys[k],
    ensures
        execute_word(s, opcode, random) == s,
        s.fault is None ==> execute_outcome(s, opcode) == Outcome::AwaitingKey,
{
    lemma_last_pressed(s.keys, 16);
    assert(decode_word(opcode) == Instruction::WaitKey(x_of(opcode)));
}

/// `Fx0A` with a key down puts the highest key that is down into `Vx` and
/// moves on to the next instruction.
pub proof fn lemma_wait_key_resumes(s: MachineState, opcode: u16, random: u8, key: int)
    requires
        s.wf(),
        s.fault is None,
        family_of(opcode) == 0xF,
        nn_of(opcode) == 0x0A,
        0 <= key < 16,
        s.keys[key],
        forall|k: int| key < k < 16 ==> !s.keys[k],
    ensures
        execute_word(s, opcode, random) == s.with_v(x_of(opcode) as int, key as u8).advance(2),
        execute_outcome(s, opcode) == Outcome::Executed,
{
    lemma_last_pressed(s.keys, 16);
    assert(decode_word(opcode) == Instruction::WaitKey(x_of(opcode)));
}

/// `Cxnn` never sets a bit of `Vx` outside the mask `nn`.
pub proof fn lemma_random_is_masked(s: MachineState, opcode: u16, random: u8)
    requires
        s.wf(),
        s.fault is None,
        family_of(opcode) == 0xC,
    ensures
        execute_word(s, opcode, random).v[x_of(opcode) as int] == random & nn_of(opcode),
        execute_word(s, opcode, random).v[x_of(opcode) as int] & !nn_of(opcode) == 0,
{
    assert(decode_word(opcode) == Instruction::Random(x_of(opcode), nn_of(opcode)));
    let nn = nn_of(opcode);
    assert((random & nn) & !nn == 0) by (bit_vector);
}

} // verus!
