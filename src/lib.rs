//! An interpreter for the CHIP-8 virtual machine.
//!
//! The machine state and the meaning of every instruction are given as spec
//! functions in [`model`] and [`display`]; the executable machine in [`chip8`]
//! is proved to follow them, and [`laws`] states properties that hold across
//! several cycles.

pub mod chip8;
pub mod display;
pub mod laws;
pub mod model;

pub use chip8::{num_get, Chip8};
pub use display::Cell;
pub use model::{Cycle, Fault};
