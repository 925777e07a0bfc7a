//! Fuzzing: coverage, input generation, mutation and the genetic search.
pub mod coverage;
pub mod mutator;
pub mod input_gen;
pub mod genetic;
