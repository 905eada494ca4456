//! An interpreter for the CHIP-8 instruction set: machine state, the
//! fetch/decode/execute cycle, the 60 Hz timers, and the decisions that pace
//! the run loop. Presentation (window, audio, key capture) lives outside.

pub mod font;
pub mod instruction;
pub mod keypad;
pub mod laws;
pub mod machine;
pub mod model;
pub mod pacing;

pub use font::FONT;
pub use keypad::{keypad_index, KeyWait};
pub use machine::Chip8;
pub use model::{ExecError, Flow, Tick, PROGRAM_START, SCREEN_H, SCREEN_W};
pub use pacing::{Pace, Pacer};
