//! Noir targets: the fuzzer's configuration for Noir circuits.
use crate::strmap::{insert_entry, StrMap};
use crate::text::owned;
use vstd::prelude::*;

verus! {

/// Configuration for fuzzing Noir circuits.
#[derive(Debug, Clone)]
pub struct NoirFuzzerConfig {
    pub backend: NoirBackend,
    pub acir_version: String,
    pub brillig_enabled: bool,
    pub custom_functions: StrMap<FunctionInfo>,
}

/// Noir backends.
#[derive(Debug, Clone, Copy, PartialEq, Eq, Structural)]
pub enum NoirBackend {
    Acir,
    Brillig,
    Marlin,
    Plonk,
}

/// A function known to the fuzzer.
#[derive(Debug, Clone)]
pub struct FunctionInfo {
    pub name: String,
    pub parameters: Vec<ParameterInfo>,
    pub return_type: String,
    pub is_public: bool,
}

/// A function parameter.
#[derive(Debug, Clone)]
pub struct ParameterInfo {
    pub name: String,
    pub parameter_type: String,
}

/// Kinds of Noir bugs.
#[derive(Debug, Clone, Copy, PartialEq, Eq, Structural)]
pub enum NoirBugType {
    TypeMismatch,
    VisibilityViolation,
    ConstraintSystemFailure,
    BrilligRuntimeError,
    InvalidWitness,
    ACIREncodingError,
}

impl NoirFuzzerConfig {
    /// The default configuration: the ACIR backend at version 0.30, with
    /// Brillig enabled and no functions.
    pub fn new() -> (c: Self)
        ensures
            c.backend == NoirBackend::Acir,
            c.acir_version@ == "0.30"@,
            c.brillig_enabled,
            c.custom_functions@.len() == 0,
    {
        NoirFuzzerConfig {
            backend: NoirBackend::Acir,
            acir_version: owned("0.30"),
            brillig_enabled: true,
            custom_functions: StrMap::new(),
        }
    }

    /// Adds a function under its name, replacing one of the same name.
    pub fn add_function(&mut self, function: FunctionInfo)
        ensures
            final(self).custom_functions@ == insert_entry(
                old(self).custom_functions@,
                function.name@,
                function,
            ),
            final(self).backend == old(self).backend,
            final(self).acir_version == old(self).acir_version,
            final(self).brillig_enabled == old(self).brillig_enabled,
    {
        let name = function.name.clone();
        self.custom_functions.insert(name, function);
    }
}

impl Default for NoirFuzzerConfig {
    fn default() -> (c: Self)
        ensures
            c.backend == NoirBackend::Acir,
    {
        NoirFuzzerConfig::new()
    }
}

} // verus!
