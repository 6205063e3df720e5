//! The mathematical model of the machine.

use vstd::prelude::*;
use crate::font::font_bytes;

verus! {

/// Bytes of addressable memory.
pub const MEMORY_SIZE: usize = 4096;

/// Address at which a program image is placed and execution begins.
pub const PROGRAM_START: usize = 0x200;

/// Largest program image that fits between `PROGRAM_START` and the end of memory.
pub const MAX_PROGRAM_SIZE: usize = 3584;

/// Width of the display in pixels.
pub const SCREEN_WIDTH: usize = 64;

/// Height of the display in pixels.
pub const SCREEN_HEIGHT: usize = 32;

/// Number of return addresses the call stack can hold.
pub const STACK_DEPTH: usize = 16;

/// A terminal condition: once raised, the machine makes no further progress
/// until it is reset or a program is loaded.
#[derive(Clone, Copy, Debug, PartialEq, Eq, Structural)]
pub enum Fault {
    /// A subroutine call found the call stack full.
    StackOverflow,
    /// A return found the call stack empty.
    StackUnderflow,
}

/// What one cycle did.
#[derive(Clone, Copy, Debug, PartialEq, Eq, Structural)]
pub enum Outcome {
    /// An instruction was executed.
    Executed,
    /// The word fetched is no instruction; it was skipped.
    UnknownOpcode(u16),
    /// The instruction waits for a key and none is pressed; nothing changed.
    AwaitingKey,
    /// The machine is halted by this fault, raised now or earlier.
    Halted(Fault),
}

/// A program image that does not fit into memory.
#[derive(Clone, Copy, Debug, PartialEq, Eq, Structural)]
pub struct LoadError {
    /// Length of the rejected image in bytes.
    pub size: usize,
}

/// The complete state of a machine, as plain mathematical values.
#[verifier::ext_equal]
pub struct MachineState {
    /// The 4096 bytes of memory.
    pub memory: Seq<u8>,
    /// The registers `V0` to `VF`.
    pub v: Seq<u8>,
    /// The address register `I`.
    pub i: int,
    /// The program counter.
    pub pc: int,
    /// The return addresses, oldest first.
    pub stack: Seq<u16>,
    /// The delay timer.
    pub delay_timer: u8,
    /// The sound timer.
    pub sound_timer: u8,
    /// The display, row by row: pixel `(x, y)` is entry `64 * y + x`.
    pub gfx: Seq<bool>,
    /// The key latch: entry `k` tells whether key `k` is held down.
    pub keys: Seq<bool>,
    /// Whether the display changed since the flag was last cleared.
    pub draw_flag: bool,
    /// The fault that halted the machine, if any.
    pub fault: Option<Fault>,
}

impl MachineState {
    /// The sizes are the machine's, both address registers lie inside memory,
    /// and so does every return address.
    pub open spec fn wf(self) -> bool {
        &&& self.memory.len() == 4096
        &&& self.v.len() == 16
        &&& self.gfx.len() == 2048
        &&& self.keys.len() == 16
        &&& self.stack.len() <= 16
        &&& 0 <= self.i < 4096
        &&& 0 <= self.pc < 4096
        &&& forall|k: int| 0 <= k < self.stack.len() ==> #[trigger] self.stack[k] < 4096
    }

    /// The state with register `x` set to `b`.
    pub open spec fn with_v(self, x: int, b: u8) -> MachineState {
        MachineState { v: self.v.update(x, b), ..self }
    }

    /// The state with memory byte `a` set to `b`.
    pub open spec fn with_byte(self, a: int, b: u8) -> MachineState {
        MachineState { memory: self.memory.update(a, b), ..self }
    }

    /// The state with the program counter moved on by `k`, wrapping at the
    /// end of memory.
    pub open spec fn advance(self, k: int) -> MachineState {
        MachineState { pc: (self.pc + k) % 4096, ..self }
    }

    /// The state after the next instruction: skipped when `skip` holds.
    pub open spec fn skip_if(self, skip: bool) -> MachineState {
        self.advance(if skip { 4 } else { 2 })
    }

    /// The state halted by `fault`, otherwise unchanged.
    pub open spec fn halted(self, fault: Fault) -> MachineState {
        MachineState { fault: Some(fault), ..self }
    }
}

/// Memory after a reset: the font at address 0, zero elsewhere.
pub open spec fn reset_memory() -> Seq<u8> {
    Seq::new(4096, |a: int| if a < 80 { font_bytes()[a] } else { 0u8 })
}

/// The state after a reset: the font in low memory, the program counter at
/// `0x200`, the display blank and marked as changed, everything else zero.
pub open spec fn reset_state() -> MachineState {
    MachineState {
        memory: reset_memory(),
        v: Seq::new(16, |k: int| 0u8),
        i: 0,
        pc: 0x200,
        stack: Seq::empty(),
        delay_timer: 0,
        sound_timer: 0,
        gfx: Seq::new(2048, |p: int| false),
        keys: Seq::new(16, |k: int| false),
        draw_flag: true,
        fault: None,
    }
}

/// The state after loading `image` into a machine: a reset machine with the
/// image copied to address `0x200` onwards.
pub open spec fn loaded_state(image: Seq<u8>) -> MachineState {
    MachineState {
        memory: Seq::new(
            4096,
            |a: int|
                if 0x200 <= a < 0x200 + image.len() {
                    image[a - 0x200]
                } else {
                    reset_memory()[a]
                },
        ),
        ..reset_state()
    }
}

} // verus!
