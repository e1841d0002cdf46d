//! A verified CHIP-8 virtual machine core: opcode decoding, the
//! register/memory/stack state machine, per-instruction semantics, and the
//! fetch-decode-execute cycle driver.

pub mod cpu;
pub mod display;
pub mod interpreter;
