//! A CHIP-8 virtual machine: machine state, framebuffer and a single-step
//! interpreter, each with its behaviour stated and proved.

pub mod display;
pub mod interpreter;
pub mod laws;
pub mod machine;

pub use interpreter::{Op, StepOutcome};
pub use machine::{Chip8, LoadError, MachineState, PeripheralState};
