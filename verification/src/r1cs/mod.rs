//! Rank-one constraint tools: the circuit model, constraint extraction and
//! witness checking.
pub mod parser;
pub mod constraints;
pub mod emulator;
pub mod tcct;
