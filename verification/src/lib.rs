//! A virtual machine for the CHIP-8 instruction set: sixteen 8-bit registers,
//! 4 KiB of memory, a 64x32 monochrome display, a 16-key latch and two
//! countdown timers.
//!
//! The machine is described twice. [`state::MachineState`] and the functions
//! of [`semantics`] say, as mathematics, what every instruction does; the
//! type [`machine::Chip8`] is the executable machine, and each of its
//! operations is proved to do what the mathematical description says.
//! [`laws`] holds what follows for every state.
//!
//! A driver resets the machine or loads a program, and then calls
//! [`Chip8::emulate_cycle`] at the pace of the processor and
//! [`Chip8::tick_timers`] sixty times a second; between cycles it writes the
//! key latch and reads the display.
//!
//! [`resource`] holds a small cache for resources that are costly to load.

pub mod font;
pub mod instruction;
pub mod laws;
pub mod machine;
mod random;
pub mod resource;
pub mod semantics;
pub mod state;
pub mod text;

pub use font::FONT_SET;
pub use instruction::{decode, Instruction};
pub use machine::Chip8;
pub use resource::{ResourceLoader, ResourceManager};
pub use state::{Fault, LoadError, MachineState, Outcome};
