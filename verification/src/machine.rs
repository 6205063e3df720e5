//! The executable machine.

use vstd::prelude::*;
use crate::font::FONT_SET;
use crate::instruction::{decode, Instruction};
use crate::random::random_byte;
use crate::semantics;
use crate::semantics::{
    draw_sprite, execute_outcome, execute_word, fetch_word, key_named, last_pressed,
    lemma_perform_wf, outcome_of, perform, row_bit, sprite_collides, sprite_covers, step,
    step_outcome, tick, tone_ends,
};
use crate::state::{
    loaded_state, reset_state, Fault, LoadError, MachineState, Outcome, MAX_PROGRAM_SIZE,
    PROGRAM_START, STACK_DEPTH,
};
use crate::text::{display_text, pixel_text, pixels_text};

verus! {

/// A CHIP-8 machine. Its state, as mathematics, is its view.
pub struct Chip8 {
    draw_flag: bool,
    gfx: [bool; 2048],
    key: [bool; 16],
    pc: u16,
    i: u16,
    v: [u8; 16],
    stack: Vec<u16>,
    memory: [u8; 4096],
    delay_timer: u8,
    sound_timer: u8,
    fault: Option<Fault>,
}

impl View for Chip8 {
    type V = MachineState;

    closed spec fn view(&self) -> MachineState {
        MachineState {
            memory: self.memory@,
            v: self.v@,
            i: self.i as int,
            pc: self.pc as int,
            stack: self.stack@,
            delay_timer: self.delay_timer,
            sound_timer: self.sound_timer,
            gfx: self.gfx@,
            keys: self.key@,
            draw_flag: self.draw_flag,
            fault: self.fault,
        }
    }
}

impl Chip8 {
    /// The machine's invariant: that of its state.
    pub open spec fn wf(&self) -> bool {
        self@.wf()
    }

    /// A machine in the state that a reset gives.
    pub fn new() -> (vm: Chip8)
        ensures
            vm.wf(),
            vm@ == reset_state(),
    {
        let mut vm = Chip8 {
            draw_flag: true,
            gfx: [false; 2048],
            key: [false; 16],
            pc: 0x200,
            i: 0,
            v: [0u8; 16],
            stack: Vec::new(),
            memory: [0u8; 4096],
            delay_timer: 0,
            sound_timer: 0,
            fault: None,
        };
        vm.init();
        vm
    }

    /// Resets the machine: memory holds the font and is otherwise zero, the
    /// registers, the stack, the timers and the key latch are cleared, the
    /// program counter is `0x200`, the display is blank and marked as
    /// changed, and a fault is forgotten.
    pub fn init(&mut self)
        ensures
            final(self).wf(),
            final(self)@ == reset_state(),
    {
        self.pc = 0x200;
        self.i = 0;
        self.gfx = [false; 2048];
        self.v = [0u8; 16];
        self.stack = Vec::new();
        self.key = [false; 16];
        self.memory = [0u8; 4096];
        self.delay_timer = 0;
        self.sound_timer = 0;
        self.fault = None;
        let mut a: usize = 0;
        while a < 80
            invariant
                a <= 80,
                forall|k: int| 0 <= k < a ==> self.memory[k] == FONT_SET[k],
                forall|k: int| a <= k < 4096 ==> self.memory[k] == 0,
                self.pc == 0x200,
                self.i == 0,
                self.gfx@ == Seq::new(2048, |p: int| false),
                self.v@ == Seq::new(16, |k: int| 0u8),
                self.key@ == Seq::new(16, |k: int| false),
                self.stack@ == Seq::<u16>::empty(),
                self.delay_timer == 0,
                self.sound_timer == 0,
                self.fault is None,
            decreases 80 - a,
        {
            self.memory[a] = FONT_SET[a];
            a += 1;
        }
        self.draw_flag = true;
    }

    /// Resets the machine and copies `image` to address `0x200` onwards. An
    /// image of more than 3584 bytes is refused, and the machine is left as
    /// it was.
    pub fn load_application(&mut self, image: &[u8]) -> (res: Result<(), LoadError>)
        ensures
            image@.len() <= 3584 ==> res is Ok && final(self).wf() && final(self)@ == loaded_state(
                image@,
            ),
            image@.len() > 3584 ==> res == Err::<(), LoadError>(LoadError { size: image.len() })
                && final(self)@ == old(self)@,
    {
        let size = image.len();
        if size > MAX_PROGRAM_SIZE {
            return Err(LoadError { size });
        }
        self.init();
        let mut k: usize = 0;
        while k < size
            invariant
                k <= size,
                size == image@.len(),
                size <= 3584,
                forall|a: int| 0x200 <= a < 0x200 + k ==> self.memory[a] == image@[a - 0x200],
                forall|a: int|
                    0 <= a < 4096 && !(0x200 <= a < 0x200 + k) ==> self.memory[a]
                        == reset_state().memory[a],
                self@ == (MachineState { memory: self.memory@, ..reset_state() }),
            decreases size - k,
        {
            self.memory[PROGRAM_START + k] = image[k];
            k += 1;
        }
        Ok(())
    }

    /// The word at the program counter, high byte first.
    pub fn fetch(&self) -> (opcode: u16)
        requires
            self.wf(),
        ensures
            opcode == fetch_word(self@),
    {
        let high: u16 = self.memory[self.pc as usize] as u16;
        let low: u16 = self.memory[((self.pc + 1) % 4096) as usize] as u16;
        high * 256 + low
    }

    /// Executes the instruction word `opcode`, with `random` as the byte
    /// that `Cxnn` draws. A halted machine does nothing and reports its
    /// fault again.
    pub fn execute(&mut self, opcode: u16, random: u8) -> (out: Outcome)
        requires
            old(self).wf(),
        ensures
            final(self).wf(),
            final(self)@ == execute_word(old(self)@, opcode, random),
            out == execute_outcome(old(self)@, opcode),
    {
        match self.fault {
            Some(fault) => Outcome::Halted(fault),
            None => {
                let ins = decode(opcode);
                proof {
                    lemma_perform_wf(self@, ins, random);
                }
                self.perform(ins, random)
            },
        }
    }

    /// One cycle: fetches the word at the program counter and executes it.
    /// The byte that `Cxnn` uses is drawn at random, so the state reached is
    /// that of `step` for some byte; for any other instruction it is that of
    /// `step` for every byte.
    pub fn emulate_cycle(&mut self) -> (out: Outcome)
        requires
            old(self).wf(),
        ensures
            final(self).wf(),
            exists|random: u8| final(self)@ == step(old(self)@, random),
            !semantics::draws_random(old(self)@) ==> forall|random: u8|
                final(self)@ == step(old(self)@, random),
            out == step_outcome(old(self)@),
    {
        let opcode = self.fetch();
        let random: u8 = match (self.fault, decode(opcode)) {
            (None, Instruction::Random(_, _)) => random_byte(),
            _ => 0,
        };
        let out = self.execute(opcode, random);
        proof {
            assert(self@ == step(old(self)@, random));
            if !semantics::draws_random(old(self)@) {
                assert forall|r: u8| self@ == step(old(self)@, r) by {
                    semantics::lemma_random_unused(old(self)@, random, r);
                }
            }
        }
        out
    }

    /// One tick of the timers: each timer above zero goes down by one.
    /// Returns whether a tone ends with this tick, that is, whether the
    /// sound timer went from 1 to 0.
    pub fn tick_timers(&mut self) -> (tone: bool)
        ensures
            final(self)@ == tick(old(self)@),
            tone == tone_ends(old(self)@),
    {
        if self.delay_timer > 0 {
            self.delay_timer = self.delay_timer - 1;
        }
        if self.sound_timer > 0 {
            let tone = self.sound_timer == 1;
            self.sound_timer = self.sound_timer - 1;
            tone
        } else {
            false
        }
    }

    /// Records that key `key` is held down (`pressed`) or released. A key
    /// number of 16 or more names no key, and nothing changes.
    pub fn set_key(&mut self, key: usize, pressed: bool)
        ensures
            final(self)@ == if key < 16 {
                MachineState { keys: old(self)@.keys.update(key as int, pressed), ..old(self)@ }
            } else {
                old(self)@
            },
    {
        if key < 16 {
            self.key[key] = pressed;
        }
    }

    /// Clears the mark that the display changed.
    pub fn clear_draw_flag(&mut self)
        ensures
            final(self)@ == (MachineState { draw_flag: false, ..old(self)@ }),
    {
        self.draw_flag = false;
    }

    /// Whether the display changed since the mark was last cleared.
    pub fn draw_flag(&self) -> (flag: bool)
        ensures
            flag == self@.draw_flag,
    {
        self.draw_flag
    }

    /// The display, row by row: pixel `(x, y)` is entry `64 * y + x`.
    pub fn gfx(&self) -> (gfx: &[bool; 2048])
        ensures
            gfx@ == self@.gfx,
    {
        &self.gfx
    }

    /// The key latch.
    pub fn keys(&self) -> (keys: &[bool; 16])
        ensures
            keys@ == self@.keys,
    {
        &self.key
    }

    /// The memory.
    pub fn memory(&self) -> (memory: &[u8; 4096])
        ensures
            memory@ == self@.memory,
    {
        &self.memory
    }

    /// The registers `V0` to `VF`.
    pub fn registers(&self) -> (v: &[u8; 16])
        ensures
            v@ == self@.v,
    {
        &self.v
    }

    /// The return addresses on the call stack, oldest first.
    pub fn stack(&self) -> (stack: &Vec<u16>)
        ensures
            stack@ == self@.stack,
    {
        &self.stack
    }

    /// The number of return addresses on the call stack.
    pub fn sp(&self) -> (sp: usize)
        ensures
            sp == self@.stack.len(),
    {
        self.stack.len()
    }

    /// The program counter.
    pub fn pc(&self) -> (pc: u16)
        ensures
            pc == self@.pc,
    {
        self.pc
    }

    /// The address register `I`.
    pub fn index(&self) -> (i: u16)
        ensures
            i == self@.i,
    {
        self.i
    }

    /// The delay timer.
    pub fn delay_timer(&self) -> (t: u8)
        ensures
            t == self@.delay_timer,
    {
        self.delay_timer
    }

    /// The sound timer.
    pub fn sound_timer(&self) -> (t: u8)
        ensures
            t == self@.sound_timer,
    {
        self.sound_timer
    }

    /// The fault that halted the machine, if any.
    pub fn fault(&self) -> (fault: Option<Fault>)
        ensures
            fault == self@.fault,
    {
        self.fault
    }

    /// The display as text: every pixel on a line of its own, `0` for a dark
    /// pixel and two blanks for a lit one, two line ends after each row and
    /// two more at the end.
    pub fn debug_render(&self) -> (text: Vec<char>)
        ensures
            text@ == display_text(self@.gfx),
    {
        let mut text: Vec<char> = Vec::new();
        let mut y: usize = 0;
        while y < 32
            invariant
                y <= 32,
                text@ == pixels_text(self.gfx@, (64 * y) as nat),
            decreases 32 - y,
        {
            let mut x: usize = 0;
            while x < 64
                invariant
                    x <= 64,
                    y < 32,
                    text@ == if x == 64 {
                        pixels_text(self.gfx@, (64 * y + 63) as nat) + pixel_text(
                            self.gfx[64 * y + 63],
                        )
                    } else {
                        pixels_text(self.gfx@, (64 * y + x) as nat)
                    },
                decreases 64 - x,
            {
                proof {
                    reveal_with_fuel(pixels_text, 2);
                }
                if self.gfx[y * 64 + x] {
                    text.push(' ');
                    text.push(' ');
                    text.push('\n');
                } else {
                    text.push('0');
                    text.push('\n');
                }
                proof {
                    let before = pixels_text(self.gfx@, (64 * y + x) as nat);
                    assert(text@ =~= before + pixel_text(self.gfx[64 * y + x]));
                }
                x += 1;
            }
            text.push('\n');
            text.push('\n');
            proof {
                let row = pixels_text(self.gfx@, (64 * y + 63) as nat) + pixel_text(
                    self.gfx[64 * y + 63],
                );
                assert(text@ =~= row + seq!['\n', '\n']);
            }
            y += 1;
        }
        text.push('\n');
        text.push('\n');
        proof {
            assert(text@ =~= pixels_text(self.gfx@, 2048) + seq!['\n', '\n']);
        }
        text
    }

    /// Executes one decoded instruction; `random` is the byte that `Cxnn`
    /// uses.
    fn perform(&mut self, ins: Instruction, random: u8) -> (out: Outcome)
        requires
            old(self).wf(),
            ins.wf(),
        ensures
            final(self)@ == perform(old(self)@, ins, random),
            out == outcome_of(old(self)@, ins),
    {
        match ins {
            Instruction::ClearScreen => {
                self.clear_screen();
                Outcome::Executed
            },
            Instruction::Return => self.return_from(),
            Instruction::Jump(a) => {
                self.jump(a);
                Outcome::Executed
            },
            Instruction::Call(a) => self.call(a),
            Instruction::SkipIfEqual(x, nn) => {
                self.skip_if(self.v[x as usize] == nn);
                Outcome::Executed
            },
            Instruction::SkipIfNotEqual(x, nn) => {
                self.skip_if(self.v[x as usize] != nn);
                Outcome::Executed
            },
            Instruction::SkipIfSame(x, y) => {
                self.skip_if(self.v[x as usize] == self.v[y as usize]);
                Outcome::Executed
            },
            Instruction::LoadByte(x, nn) => {
                self.assign(x, nn);
                Outcome::Executed
            },
            Instruction::AddByte(x, nn) => {
                self.assign(x, self.v[x as usize].wrapping_add(nn));
                Outcome::Executed
            },
            Instruction::Copy(x, y) => {
                self.assign(x, self.v[y as usize]);
                Outcome::Executed
            },
            Instruction::Or(x, y) => {
                self.assign(x, self.v[x as usize] | self.v[y as usize]);
                Outcome::Executed
            },
            Instruction::And(x, y) => {
                self.assign(x, self.v[x as usize] & self.v[y as usize]);
                Outcome::Executed
            },
            Instruction::Xor(x, y) => {
                self.assign(x, self.v[x as usize] ^ self.v[y as usize]);
                Outcome::Executed
            },
            Instruction::Add(x, y) => {
                self.add_registers(x, y);
                Outcome::Executed
            },
            Instruction::Subtract(x, y) => {
                self.subtract_registers(x, y);
                Outcome::Executed
            },
            Instruction::ShiftRight(x) => {
                self.shift_right(x);
                Outcome::Executed
            },
            Instruction::SubtractFrom(x, y) => {
                self.subtract_from_register(x, y);
                Outcome::Executed
            },
            Instruction::ShiftLeft(x) => {
                self.shift_left(x);
                Outcome::Executed
            },
            Instruction::SkipIfDifferent(x, y) => {
                self.skip_if(self.v[x as usize] != self.v[y as usize]);
                Outcome::Executed
            },
            Instruction::LoadIndex(a) => {
                self.load_index(a);
                Outcome::Executed
            },
            Instruction::JumpOffset(a) => {
                self.jump_offset(a);
                Outcome::Executed
            },
            Instruction::Random(x, nn) => {
                self.assign(x, random & nn);
                Outcome::Executed
            },
            Instruction::Draw(x, y, n) => {
                self.draw(x, y, n);
                Outcome::Executed
            },
            Instruction::SkipIfKey(x) => {
                self.skip_if(self.key_down(x));
                Outcome::Executed
            },
            Instruction::SkipIfNoKey(x) => {
                self.skip_if(!self.key_down(x));
                Outcome::Executed
            },
            Instruction::ReadDelay(x) => {
                self.assign(x, self.delay_timer);
                Outcome::Executed
            },
            Instruction::WaitKey(x) => self.wait_key(x),
            Instruction::SetDelay(x) => {
                self.set_delay(x);
                Outcome::Executed
            },
            Instruction::SetSound(x) => {
                self.set_sound(x);
                Outcome::Executed
            },
            Instruction::AddIndex(x) => {
                self.add_index(x);
                Outcome::Executed
            },
            Instruction::StoreDigits(x) => {
                self.store_digits(x);
                Outcome::Executed
            },
            Instruction::StoreRegisters(x) => {
                self.store_registers(x);
                Outcome::Executed
            },
            Instruction::LoadRegisters(x) => {
                self.load_registers(x);
                Outcome::Executed
            },
            Instruction::Unknown(opcode) => {
                self.advance(2);
                Outcome::UnknownOpcode(opcode)
            },
        }
    }

    fn jump(&mut self, a: u16)
        ensures
            final(self)@ == semantics::jump(old(self)@, a as int),
    {
        self.pc = a;
    }

    fn jump_offset(&mut self, a: u16)
        requires
            a < 4096,
        ensures
            final(self)@ == semantics::jump_offset(old(self)@, a as int),
    {
        self.pc = (a + self.v[0] as u16) % 4096;
    }

    fn load_index(&mut self, a: u16)
        requires
            old(self).wf(),
            a < 4096,
        ensures
            final(self)@ == semantics::load_index(old(self)@, a as int),
    {
        self.i = a;
        self.advance(2);
    }

    fn set_delay(&mut self, x: u8)
        requires
            old(self).wf(),
            x < 16,
        ensures
            final(self)@ == semantics::set_delay(old(self)@, x as int),
    {
        self.delay_timer = self.v[x as usize];
        self.advance(2);
    }

    fn set_sound(&mut self, x: u8)
        requires
            old(self).wf(),
            x < 16,
        ensures
            final(self)@ == semantics::set_sound(old(self)@, x as int),
    {
        self.sound_timer = self.v[x as usize];
        self.advance(2);
    }

    fn key_down(&self, x: u8) -> (down: bool)
        requires
            x < 16,
        ensures
            down == self@.keys[key_named(self@, x as int)],
    {
        self.key[(self.v[x as usize] % 16) as usize]
    }

    fn clear_screen(&mut self)
        requires
            old(self).wf(),
        ensures
            final(self)@ == semantics::clear_screen(old(self)@),
    {
        self.gfx = [false; 2048];
        self.draw_flag = true;
        self.advance(2);
    }

    fn return_from(&mut self) -> (out: Outcome)
        requires
            old(self).wf(),
        ensures
            final(self)@ == semantics::return_from(old(self)@),
            out == outcome_of(old(self)@, Instruction::Return),
    {
        match self.stack.pop() {
            Some(a) => {
                self.pc = a;
                Outcome::Executed
            },
            None => {
                self.fault = Some(Fault::StackUnderflow);
                Outcome::Halted(Fault::StackUnderflow)
            },
        }
    }

    fn call(&mut self, a: u16) -> (out: Outcome)
        requires
            old(self).wf(),
        ensures
            final(self)@ == semantics::call(old(self)@, a as int),
            out == outcome_of(old(self)@, Instruction::Call(a)),
    {
        if self.stack.len() >= STACK_DEPTH {
            self.fault = Some(Fault::StackOverflow);
            Outcome::Halted(Fault::StackOverflow)
        } else {
            self.stack.push((self.pc + 2) % 4096);
            self.pc = a;
            Outcome::Executed
        }
    }

    fn assign(&mut self, x: u8, b: u8)
        requires
            old(self).wf(),
            x < 16,
        ensures
            final(self)@ == semantics::assign(old(self)@, x as int, b),
    {
        self.set_v(x, b);
        self.advance(2);
    }

    fn add_registers(&mut self, x: u8, y: u8)
        requires
            old(self).wf(),
            x < 16,
            y < 16,
        ensures
            final(self)@ == semantics::add_registers(old(self)@, x as int, y as int),
    {
        let sum: u16 = self.v[x as usize] as u16 + self.v[y as usize] as u16;
        self.set_v(0xF, if sum > 255 { 1 } else { 0 });
        self.set_v(x, (sum % 256) as u8);
        self.advance(2);
    }

    fn subtract_registers(&mut self, x: u8, y: u8)
        requires
            old(self).wf(),
            x < 16,
            y < 16,
        ensures
            final(self)@ == semantics::subtract_registers(old(self)@, x as int, y as int),
    {
        self.set_v(0xF, if self.v[x as usize] >= self.v[y as usize] { 1 } else { 0 });
        self.set_v(x, self.v[x as usize].wrapping_sub(self.v[y as usize]));
        self.advance(2);
    }

    fn subtract_from_register(&mut self, x: u8, y: u8)
        requires
            old(self).wf(),
            x < 16,
            y < 16,
        ensures
            final(self)@ == semantics::subtract_from_register(old(self)@, x as int, y as int),
    {
        self.set_v(0xF, if self.v[y as usize] >= self.v[x as usize] { 1 } else { 0 });
        self.set_v(x, self.v[y as usize].wrapping_sub(self.v[x as usize]));
        self.advance(2);
    }

    fn shift_right(&mut self, x: u8)
        requires
            old(self).wf(),
            x < 16,
        ensures
            final(self)@ == semantics::shift_right(old(self)@, x as int),
    {
        let a: u8 = self.v[x as usize];
        assert(a & 1 == a % 2) by (bit_vector);
        self.set_v(0xF, a & 1);
        let b: u8 = self.v[x as usize];
        assert(b >> 1 == b / 2) by (bit_vector);
        self.set_v(x, b >> 1);
        self.advance(2);
    }

    fn shift_left(&mut self, x: u8)
        requires
            old(self).wf(),
            x < 16,
        ensures
            final(self)@ == semantics::shift_left(old(self)@, x as int),
    {
        let a: u8 = self.v[x as usize];
        assert((a >> 7) & 1 == a / 128) by (bit_vector);
        self.set_v(0xF, (a >> 7) & 1);
        let b: u8 = self.v[x as usize];
        assert(b << 1 == (b * 2) % 256) by (bit_vector);
        self.set_v(x, b << 1);
        self.advance(2);
    }

    fn add_index(&mut self, x: u8)
        requires
            old(self).wf(),
            x < 16,
        ensures
            final(self)@ == semantics::add_index(old(self)@, x as int),
    {
        let sum: u16 = self.i + self.v[x as usize] as u16;
        self.set_v(0xF, if sum > 0xFFF { 1 } else { 0 });
        self.i = sum % 4096;
        self.advance(2);
    }

    fn store_digits(&mut self, x: u8)
        requires
            old(self).wf(),
            x < 16,
        ensures
            final(self)@ == semantics::store_digits(old(self)@, x as int),
    {
        let b: u8 = self.v[x as usize];
        self.set_byte(self.i, b / 100);
        self.set_byte((self.i + 1) % 4096, (b / 10) % 10);
        self.set_byte((self.i + 2) % 4096, b % 10);
        self.advance(2);
    }

    fn wait_key(&mut self, x: u8) -> (out: Outcome)
        requires
            old(self).wf(),
            x < 16,
        ensures
            final(self)@ == semantics::wait_key(old(self)@, x as int),
            out == outcome_of(old(self)@, Instruction::WaitKey(x)),
    {
        match self.pressed_key() {
            Some(k) => {
                self.set_v(x, k);
                self.advance(2);
                Outcome::Executed
            },
            None => Outcome::AwaitingKey,
        }
    }

    fn draw(&mut self, x: u8, y: u8, rows: u8)
        requires
            old(self).wf(),
            x < 16,
            y < 16,
            rows < 16,
        ensures
            final(self)@ == semantics::draw(old(self)@, x as int, y as int, rows as int),
    {
        let collision = self.draw_sprite(self.v[x as usize], self.v[y as usize], rows);
        self.draw_flag = true;
        self.set_v(0xF, if collision { 1 } else { 0 });
        self.advance(2);
    }

    fn set_v(&mut self, x: u8, b: u8)
        requires
            x < 16,
        ensures
            final(self)@ == old(self)@.with_v(x as int, b),
    {
        self.v[x as usize] = b;
    }

    fn set_byte(&mut self, a: u16, b: u8)
        requires
            a < 4096,
        ensures
            final(self)@ == old(self)@.with_byte(a as int, b),
    {
        self.memory[a as usize] = b;
    }

    fn advance(&mut self, k: u16)
        requires
            old(self).wf(),
            k <= 4,
        ensures
            final(self)@ == old(self)@.advance(k as int),
    {
        self.pc = (self.pc + k) % 4096;
    }

    fn skip_if(&mut self, skip: bool)
        requires
            old(self).wf(),
        ensures
            final(self)@ == old(self)@.skip_if(skip),
    {
        if skip {
            self.advance(4);
        } else {
            self.advance(2);
        }
    }

    fn pressed_key(&self) -> (found: Option<u8>)
        ensures
            found == last_pressed(self@.keys, 16),
    {
        let mut found: Option<u8> = None;
        let mut k: u8 = 0;
        while k < 16
            invariant
                k <= 16,
                found == last_pressed(self.key@, k as nat),
            decreases 16 - k,
        {
            if self.key[k as usize] {
                found = Some(k);
            }
            k += 1;
        }
        found
    }

    fn store_registers(&mut self, x: u8)
        requires
            old(self).wf(),
            x < 16,
        ensures
            final(self)@ == semantics::store_registers(old(self)@, x as int),
    {
        let mut k: u8 = 0;
        while k <= x
            invariant
                k <= x + 1,
                x < 16,
                self.i < 4096,
                self@ == (MachineState { memory: self.memory@, ..old(self)@ }),
                forall|a: int|
                    0 <= a < 4096 ==> self.memory[a] == if (a - self.i) % 4096 < k {
                        old(self).v[(a - self.i) % 4096]
                    } else {
                        old(self).memory[a]
                    },
            decreases x + 1 - k,
        {
            let a: u16 = (self.i + k as u16) % 4096;
            self.memory[a as usize] = self.v[k as usize];
            k += 1;
        }
        assert(self.memory@ =~= semantics::stored_registers(old(self)@, x as int));
        self.advance(2);
    }

    fn load_registers(&mut self, x: u8)
        requires
            old(self).wf(),
            x < 16,
        ensures
            final(self)@ == semantics::load_registers(old(self)@, x as int),
    {
        let mut k: u8 = 0;
        while k <= x
            invariant
                k <= x + 1,
                x < 16,
                self.i < 4096,
                self@ == (MachineState { v: self.v@, ..old(self)@ }),
                forall|j: int|
                    0 <= j < 16 ==> self.v[j] == if j < k {
                        old(self).memory[(self.i + j) % 4096]
                    } else {
                        old(self).v[j]
                    },
            decreases x + 1 - k,
        {
            let a: u16 = (self.i + k as u16) % 4096;
            self.v[k as usize] = self.memory[a as usize];
            k += 1;
        }
        assert(self.v@ =~= semantics::loaded_registers(old(self)@, x as int));
        self.advance(2);
    }

    /// Draws the sprite of `rows` rows at `I` with its corner at `(x0, y0)`
    /// and tells whether a lit pixel went dark.
    fn draw_sprite(&mut self, x0: u8, y0: u8, rows: u8) -> (collision: bool)
        requires
            old(self).wf(),
            rows < 16,
        ensures
            final(self)@ == (MachineState {
                gfx: draw_sprite(
                    old(self)@.gfx,
                    old(self)@.memory,
                    old(self)@.i,
                    x0 as int,
                    y0 as int,
                    rows as int,
                ),
                ..old(self)@
            }),
            collision == sprite_collides(
                old(self)@.gfx,
                old(self)@.memory,
                old(self)@.i,
                x0 as int,
                y0 as int,
                rows as int,
            ),
    {
        let ghost m = self.memory@;
        let ghost i = self.i as int;
        let ghost g = self.gfx@;
        let ghost x = x0 as int;
        let ghost y = y0 as int;
        let mut collision = false;
        let mut row: u8 = 0;
        proof {
            lemma_drawn_none(m, i, x, y);
        }
        while row < rows
            invariant
                row <= rows,
                rows < 16,
                self.i == i,
                0 <= i < 4096,
                x == x0,
                y == y0,
                m == old(self).memory@,
                g == old(self).gfx@,
                self@ == (MachineState { gfx: self.gfx@, ..old(self)@ }),
                forall|p: int|
                    0 <= p < 2048 ==> self.gfx[p] == (g[p] != drawn_before(
                        m,
                        i,
                        x,
                        y,
                        row as int,
                        0,
                        p,
                    )),
                collision == hits_before(g, m, i, x, y, row as int, 0),
            decreases rows - row,
        {
            let bits: u8 = self.memory[((self.i + row as u16) % 4096) as usize];
            let py: usize = (y0 as usize + row as usize) % 32;
            let mut col: u8 = 0;
            while col < 8
                invariant
                    col <= 8,
                    row < rows,
                    rows < 16,
                    x == x0,
                    y == y0,
                    0 <= i < 4096,
                    py == (y + row) % 32,
                    bits == m[(i + row) % 4096],
                    g == old(self).gfx@,
                    self@ == (MachineState { gfx: self.gfx@, ..old(self)@ }),
                    forall|p: int|
                        0 <= p < 2048 ==> self.gfx[p] == (g[p] != drawn_before(
                            m,
                            i,
                            x,
                            y,
                            row as int,
                            col as int,
                            p,
                        )),
                    collision == hits_before(g, m, i, x, y, row as int, col as int),
                decreases 8 - col,
            {
                let px: usize = (x0 as usize + col as usize) % 64;
                let q: usize = py * 64 + px;
                let ghost before = self.gfx@;
                proof {
                    lemma_drawn_step(g, m, i, x, y, row as int, col as int);
                    assert(q == pixel_index(x, y, row as int, col as int));
                    assert(before[q as int] == g[q as int]);
                }
                if bits & (0x80u8 >> col) != 0 {
                    if self.gfx[q] {
                        collision = true;
                    }
                    self.gfx[q] = !self.gfx[q];
                }
                proof {
                    assert forall|p: int| 0 <= p < 2048 implies self.gfx[p] == (g[p]
                        != drawn_before(m, i, x, y, row as int, col + 1, p)) by {
                        assert(before[p] == (g[p] != drawn_before(
                            m,
                            i,
                            x,
                            y,
                            row as int,
                            col as int,
                            p,
                        )));
                    }
                }
                col += 1;
            }
            proof {
                lemma_drawn_next_row(g, m, i, x, y, row as int);
            }
            row += 1;
        }
        proof {
            lemma_drawn_all(g, m, i, x, y, rows as int);
            assert(self.gfx@ =~= draw_sprite(g, m, i, x, y, rows as int));
        }
        collision
    }
}

/// The pixel that bit `col` of row `row` of a sprite at `(x0, y0)` lands on.
spec fn pixel_index(x0: int, y0: int, row: int, col: int) -> int {
    ((y0 + row) % 32) * 64 + (x0 + col) % 64
}

/// Whether the part of the sprite drawn so far has a set bit on pixel `p`:
/// the rows above `row`, and of row `row` the columns left of `col`.
#[verifier::opaque]
spec fn drawn_before(
    memory: Seq<u8>,
    i: int,
    x0: int,
    y0: int,
    row: int,
    col: int,
    p: int,
) -> bool {
    let c = (p % 64 - x0) % 64;
    let r = (p / 64 - y0) % 32;
    c < 8 && (r < row || (r == row && c < col)) && row_bit(memory[(i + r) % 4096], c as u8)
}

/// Whether the part of the sprite drawn so far has a set bit on a lit pixel
/// of `gfx`.
spec fn hits_before(
    gfx: Seq<bool>,
    memory: Seq<u8>,
    i: int,
    x0: int,
    y0: int,
    row: int,
    col: int,
) -> bool {
    exists|p: int|
        0 <= p < 2048 && gfx[p] && #[trigger] drawn_before(memory, i, x0, y0, row, col, p)
}

proof fn lemma_drawn_none(memory: Seq<u8>, i: int, x0: int, y0: int)
    ensures
        forall|p: int| !#[trigger] drawn_before(memory, i, x0, y0, 0, 0, p),
{
    reveal(drawn_before);
}

proof fn lemma_drawn_step(
    gfx: Seq<bool>,
    memory: Seq<u8>,
    i: int,
    x0: int,
    y0: int,
    row: int,
    col: int,
)
    requires
        0 <= x0 < 256,
        0 <= y0 < 256,
        0 <= row < 16,
        0 <= col < 8,
    ensures
        0 <= pixel_index(x0, y0, row, col) < 2048,
        !drawn_before(memory, i, x0, y0, row, col, pixel_index(x0, y0, row, col)),
        forall|p: int|
            0 <= p < 2048 ==> #[trigger] drawn_before(memory, i, x0, y0, row, col + 1, p) == (
            drawn_before(memory, i, x0, y0, row, col, p) || (p == pixel_index(x0, y0, row, col)
                && row_bit(memory[(i + row) % 4096], col as u8))),
        hits_before(gfx, memory, i, x0, y0, row, col + 1) == (hits_before(
            gfx,
            memory,
            i,
            x0,
            y0,
            row,
            col,
        ) || (gfx[pixel_index(x0, y0, row, col)] && row_bit(
            memory[(i + row) % 4096],
            col as u8,
        ))),
{
    let q = pixel_index(x0, y0, row, col);
    let bit = row_bit(memory[(i + row) % 4096], col as u8);
    lemma_wrap_back(x0, col, y0, row);
    assert(q % 64 == (x0 + col) % 64 && q / 64 == (y0 + row) % 32);
    assert forall|p: int| 0 <= p < 2048 implies #[trigger] drawn_before(
        memory,
        i,
        x0,
        y0,
        row,
        col + 1,
        p,
    ) == (drawn_before(memory, i, x0, y0, row, col, p) || (p == q && bit)) by {
        reveal(drawn_before);
        let c = (p % 64 - x0) % 64;
        let r = (p / 64 - y0) % 32;
        if c == col && r == row {
            lemma_wrap_unique(p % 64, x0, col, p / 64, y0, row);
            assert(p == q);
        }
    }
    assert(!drawn_before(memory, i, x0, y0, row, col, q)) by {
        reveal(drawn_before);
    }
    if hits_before(gfx, memory, i, x0, y0, row, col) {
        let w = choose|p: int|
            0 <= p < 2048 && gfx[p] && #[trigger] drawn_before(memory, i, x0, y0, row, col, p);
        assert(drawn_before(memory, i, x0, y0, row, col + 1, w));
    }
    if gfx[q] && bit {
        assert(drawn_before(memory, i, x0, y0, row, col + 1, q));
    }
}

/// Going right by `dx` and down by `dy` with wrapping, and then back by the
/// start, gives `dx` and `dy` again.
proof fn lemma_wrap_back(x0: int, dx: int, y0: int, dy: int)
    requires
        0 <= dx < 64,
        0 <= dy < 32,
    ensures
        ((x0 + dx) % 64 - x0) % 64 == dx,
        ((y0 + dy) % 32 - y0) % 32 == dy,
{
}

/// Only one column and one row lie `dx` right of and `dy` below a start.
proof fn lemma_wrap_unique(u: int, x0: int, dx: int, v: int, y0: int, dy: int)
    requires
        0 <= u < 64,
        0 <= v < 32,
        (u - x0) % 64 == dx,
        (v - y0) % 32 == dy,
    ensures
        u == (x0 + dx) % 64,
        v == (y0 + dy) % 32,
{
}

proof fn lemma_drawn_next_row(
    gfx: Seq<bool>,
    memory: Seq<u8>,
    i: int,
    x0: int,
    y0: int,
    row: int,
)
    ensures
        forall|p: int|
            drawn_before(memory, i, x0, y0, row, 8, p) == #[trigger] drawn_before(
                memory,
                i,
                x0,
                y0,
                row + 1,
                0,
                p,
            ),
        hits_before(gfx, memory, i, x0, y0, row, 8) == hits_before(
            gfx,
            memory,
            i,
            x0,
            y0,
            row + 1,
            0,
        ),
{
    reveal(drawn_before);
    assert forall|p: int|
        drawn_before(memory, i, x0, y0, row, 8, p) == #[trigger] drawn_before(
            memory,
            i,
            x0,
            y0,
            row + 1,
            0,
            p,
        ) by {}
    if hits_before(gfx, memory, i, x0, y0, row, 8) {
        let w = choose|p: int|
            0 <= p < 2048 && gfx[p] && #[trigger] drawn_before(memory, i, x0, y0, row, 8, p);
        assert(drawn_before(memory, i, x0, y0, row + 1, 0, w));
    }
    if hits_before(gfx, memory, i, x0, y0, row + 1, 0) {
        let w = choose|p: int|
            0 <= p < 2048 && gfx[p] && #[trigger] drawn_before(memory, i, x0, y0, row + 1, 0, p);
        assert(drawn_before(memory, i, x0, y0, row, 8, w));
    }
}

proof fn lemma_drawn_all(gfx: Seq<bool>, memory: Seq<u8>, i: int, x0: int, y0: int, rows: int)
    ensures
        forall|p: int|
            #[trigger] drawn_before(memory, i, x0, y0, rows, 0, p) == sprite_covers(
                memory,
                i,
                x0,
                y0,
                rows,
                p,
            ),
        hits_before(gfx, memory, i, x0, y0, rows, 0) == sprite_collides(
            gfx,
            memory,
            i,
            x0,
            y0,
            rows,
        ),
{
    reveal(drawn_before);
    assert forall|p: int| #[trigger]
        drawn_before(memory, i, x0, y0, rows, 0, p) == sprite_covers(
            memory,
            i,
            x0,
            y0,
            rows,
            p,
        ) by {}
    if hits_before(gfx, memory, i, x0, y0, rows, 0) {
        let w = choose|p: int|
            0 <= p < 2048 && gfx[p] && #[trigger] drawn_before(memory, i, x0, y0, rows, 0, p);
        assert(sprite_covers(memory, i, x0, y0, rows, w));
    }
    if sprite_collides(gfx, memory, i, x0, y0, rows) {
        let w = choose|p: int|
            0 <= p < 2048 && gfx[p] && #[trigger] sprite_covers(memory, i, x0, y0, rows, p);
        assert(drawn_before(memory, i, x0, y0, rows, 0, w));
    }
}

} // verus!
