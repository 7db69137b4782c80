//! A CHIP-8 virtual machine core: an instruction decoder, the machine state,
//! and an execution engine with verified bit-level semantics.

pub mod errors;
pub mod instrs;
pub mod engine;
pub mod machine;
