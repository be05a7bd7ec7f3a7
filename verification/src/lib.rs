//! A verified emulator for a small word-addressed machine: an eight-register,
//! eight-instruction architecture with 65536 words of memory.
//!
//! `isa` defines the instruction encoding and the word arithmetic the
//! instructions use; `machine` holds the execution engine and its abstract
//! transition function; `laws` proves the architecture-level properties.

pub mod isa;
pub mod laws;
pub mod machine;
