//! Fuzzer configurations for the supported proof systems.
pub mod circom;
pub mod noir;
pub mod gnark;
pub mod halo2;
