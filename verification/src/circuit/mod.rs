//! Circuits: the syntax tree, constraint extraction, witness emulation and
//! trace consistency checking.
pub mod parser;
pub mod constraints;
pub mod tcct;
pub mod emulator;
