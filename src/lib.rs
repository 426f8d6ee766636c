//! A CHIP-8 virtual machine: the fetch-decode-execute engine, its
//! configurable quirks, sprite drawing and the multi-cycle key wait. Each
//! instruction is stated in `model` as a transition of a mathematical machine
//! state, and the engine is proved to follow it.
//!
//! Where historical interpreters disagree, this machine is fixed as follows:
//! - every address it derives (program counter, index register, the bytes
//!   that `Dxyn`, `Fx33`, `Fx55` and `Fx65` reach from the index) wraps at
//!   4096, so both registers always hold a 12-bit address;
//! - stores by `Fx33` and `Fx55` into the font area are dropped, so the font
//!   is never overwritten by a program;
//! - a call with all sixteen stack levels in use and a return with an empty
//!   stack are reported as errors, as is an opcode that names no instruction;
//!   the failing cycle leaves the program counter past the opcode and
//!   changes nothing else;
//! - `Ex9E` and `ExA1` treat a value of vX beyond the sixteen keys as a key
//!   that is up; `Fx29` takes the glyph of the low nibble of vX.

mod quirks;
mod machine;
mod keypad;
mod display;
pub mod model;
pub mod laws;

pub use machine::Chip8;
pub use model::{Chip8State, ExecuteError, VIDEO_HEIGHT, VIDEO_WIDTH};
pub use quirks::Quirks;
pub use keypad::get_key_idx;
pub use display::convert_to_rgba;
