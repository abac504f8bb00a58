//! A virtual machine for the CHIP-8 instruction set: a decoder for its
//! 16-bit opcodes and an execution engine over 4 KiB of memory, sixteen
//! registers, two timers, a call stack and a 64x32 one-bit display.
//!
//! The engine never touches a window, a keyboard or a clock. Each cycle
//! reports what the outside world has to do next, and the answers are
//! handed back through [`interpreter::Interpreter::respond`].

pub mod display;
pub mod error;
pub mod hex;
pub mod instruction;
pub mod interpreter;
pub mod keypad;
pub mod laws;
pub mod machine;
pub mod timing;

pub use error::EngineError;
pub use instruction::Instruction;
pub use interpreter::Interpreter;
pub use machine::{Action, Pending, Response};
