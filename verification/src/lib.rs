//! A verified CHIP-8 virtual machine core.
//!
//! The library holds all CPU-visible state (memory, registers, stack,
//! timers, framebuffer) and implements the fetch-decode-execute semantics
//! of the CHIP-8 instruction set, including wraparound and carry-flag
//! arithmetic and XOR sprite blitting with collision detection and
//! clipping. Rendering, keyboard polling and ROM loading from disk are
//! external collaborators: they exchange plain values with this core.

pub mod decode;
pub mod draw;
pub mod exec;
pub mod input;
pub mod laws;
pub mod machine;

pub use decode::Instr;
pub use input::Keys;
pub use machine::Chip8;
pub use machine::Chip8View;
pub use machine::InterpreterError;
pub use machine::LoadError;
pub use machine::StepOutcome;
