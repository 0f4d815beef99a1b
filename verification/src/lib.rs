//! The core of a CHIP-8 interpreter: memory, CPU, display, timers and the
//! instruction decoder, each with a contract over a mathematical model.

pub mod emulator;
