//! Report output.
pub mod formatter;
