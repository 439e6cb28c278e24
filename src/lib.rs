//! A user-mode simulator for a 64-bit RISC-V base integer instruction set with
//! the multiply/divide extension: a pure decoder from instruction words to
//! typed operations, and an executor whose every step is stated against a
//! mathematical model of the machine.
pub mod bits;
pub mod primitives;
pub mod instruction_set;
pub mod decoding;
pub mod machine;
pub mod memory;
pub mod emulator;
pub mod io;
pub mod laws;
pub mod encoding;
