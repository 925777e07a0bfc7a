//! Circom targets: the fuzzer's configuration for Circom circuits.
use crate::strmap::{insert_entry, StrMap};
use crate::text::owned;
use vstd::prelude::*;

verus! {

/// Configuration for fuzzing Circom circuits.
#[derive(Debug, Clone)]
pub struct CircomFuzzerConfig {
    pub prime_field: String,
    pub version: CircomVersion,
    pub include_paths: Vec<String>,
    pub custom_templates: StrMap<TemplateInfo>,
}

/// Circom language versions.
#[derive(Debug, Clone, Copy, PartialEq, Eq, Structural)]
pub enum CircomVersion {
    V1,
    V2,
    V2_1,
    Unknown,
}

/// A template known to the fuzzer.
#[derive(Debug, Clone)]
pub struct TemplateInfo {
    pub name: String,
    pub parameters: Vec<ParameterInfo>,
    pub input_count: usize,
    pub output_count: usize,
}

/// A template parameter.
#[derive(Debug, Clone)]
pub struct ParameterInfo {
    pub name: String,
    pub parameter_type: String,
}

/// Kinds of Circom bugs.
#[derive(Debug, Clone, Copy, PartialEq, Eq, Structural)]
pub enum CircomBugType {
    SignalNotAssigned,
    MultipleAssignments,
    ComponentNotInstantiated,
    TemplateParameterMismatch,
    CircularSignalDependency,
    QuadraticConstraintViolation,
    InvalidFieldElement,
}

impl CircomFuzzerConfig {
    /// The default configuration: the BN254 prime field, version 2, no
    /// include paths and no templates.
    pub fn new() -> (c: Self)
        ensures
            c.prime_field@
                == "21888242871839275222246405745257275088548364400416034343698204186575808495617"@,
            c.version == CircomVersion::V2,
            c.include_paths@.len() == 0,
            c.custom_templates@.len() == 0,
    {
        CircomFuzzerConfig {
            prime_field: owned(
                "21888242871839275222246405745257275088548364400416034343698204186575808495617",
            ),
            version: CircomVersion::V2,
            include_paths: Vec::new(),
            custom_templates: StrMap::new(),
        }
    }

    /// Adds a template under its name, replacing one of the same name.
    pub fn add_template(&mut self, template: TemplateInfo)
        ensures
            final(self).custom_templates@ == insert_entry(
                old(self).custom_templates@,
                template.name@,
                template,
            ),
            final(self).prime_field == old(self).prime_field,
            final(self).version == old(self).version,
            final(self).include_paths == old(self).include_paths,
    {
        let name = template.name.clone();
        self.custom_templates.insert(name, template);
    }
}

impl Default for CircomFuzzerConfig {
    fn default() -> (c: Self)
        ensures
            c.version == CircomVersion::V2,
    {
        CircomFuzzerConfig::new()
    }
}

} // verus!
