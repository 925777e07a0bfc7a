//! Gnark targets: the fuzzer's configuration for Gnark circuits and their
//! outline.
use crate::text::{file_stem, file_stem_of, owned};
use vstd::prelude::*;

verus! {

/// Configuration for fuzzing Gnark circuits.
#[derive(Debug, Clone)]
pub struct GnarkFuzzerConfig {
    pub curve: GnarkCurve,
    pub backend: GnarkBackend,
    pub witness_assignment: WitnessConfig,
    pub custom_constraints: Vec<CustomConstraint>,
}

/// Elliptic curves Gnark supports.
#[derive(Debug, Clone, Copy, PartialEq, Eq, Structural)]
pub enum GnarkCurve {
    BN254,
    BLS12_381,
    BLS12_377,
    BW6_761,
    BLS24_315,
    BLS24_317,
    BW6_633,
    Unknown,
}

/// Gnark proof backends.
#[derive(Debug, Clone, Copy, PartialEq, Eq, Structural)]
pub enum GnarkBackend {
    Groth16,
    Plonk,
    Marlin,
}

/// The witness variables of a circuit by kind.
#[derive(Debug, Clone)]
pub struct WitnessConfig {
    pub public_inputs: Vec<String>,
    pub secret_inputs: Vec<String>,
    pub internal_wires: Vec<String>,
}

/// A constraint given by the user.
#[derive(Debug, Clone)]
pub struct CustomConstraint {
    pub name: String,
    pub constraint_type: ConstraintType,
    pub expression: String,
}

/// Kinds of custom constraints.
#[derive(Debug, Clone, Copy, PartialEq, Eq, Structural)]
pub enum ConstraintType {
    Arithmetic,
    Boolean,
    Range,
    Equality,
    Lookup,
}

/// Kinds of Gnark bugs.
#[derive(Debug, Clone, Copy, PartialEq, Eq, Structural)]
pub enum GnarkBugType {
    WitnessAssignmentError,
    ConstraintUnsatisfiable,
    CurveMismatch,
    BackendIncompatibility,
    InvalidProofGeneration,
    SerializationError,
    MismatchedPublicInputs,
    CircuitCompilationError,
    ProofVerificationFailure,
    SetupError,
}

impl GnarkFuzzerConfig {
    /// The default configuration: curve BN254, Groth16, no witness
    /// variables and no custom constraints.
    pub fn new() -> (c: Self)
        ensures
            c.curve == GnarkCurve::BN254,
            c.backend == GnarkBackend::Groth16,
            c.witness_assignment.public_inputs@.len() == 0,
            c.witness_assignment.secret_inputs@.len() == 0,
            c.witness_assignment.internal_wires@.len() == 0,
            c.custom_constraints@.len() == 0,
    {
        GnarkFuzzerConfig {
            curve: GnarkCurve::BN254,
            backend: GnarkBackend::Groth16,
            witness_assignment: WitnessConfig {
                public_inputs: Vec::new(),
                secret_inputs: Vec::new(),
                internal_wires: Vec::new(),
            },
            custom_constraints: Vec::new(),
        }
    }

    /// Adds a public input.
    pub fn add_public_input(&mut self, name: String)
        ensures
            final(self).witness_assignment.public_inputs@ == old(
                self,
            ).witness_assignment.public_inputs@.push(name),
            final(self).witness_assignment.secret_inputs@ == old(
                self,
            ).witness_assignment.secret_inputs@,
            final(self).witness_assignment.internal_wires@ == old(
                self,
            ).witness_assignment.internal_wires@,
            final(self).custom_constraints@ == old(self).custom_constraints@,
            final(self).curve == old(self).curve,
            final(self).backend == old(self).backend,
    {
        self.witness_assignment.public_inputs.push(name);
    }

    /// Adds a secret input.
    pub fn add_secret_input(&mut self, name: String)
        ensures
            final(self).witness_assignment.secret_inputs@ == old(
                self,
            ).witness_assignment.secret_inputs@.push(name),
            final(self).witness_assignment.public_inputs@ == old(
                self,
            ).witness_assignment.public_inputs@,
            final(self).witness_assignment.internal_wires@ == old(
                self,
            ).witness_assignment.internal_wires@,
            final(self).custom_constraints@ == old(self).custom_constraints@,
            final(self).curve == old(self).curve,
            final(self).backend == old(self).backend,
    {
        self.witness_assignment.secret_inputs.push(name);
    }

    /// Adds a custom constraint.
    pub fn add_constraint(&mut self, constraint: CustomConstraint)
        ensures
            final(self).custom_constraints@ == old(self).custom_constraints@.push(constraint),
            final(self).witness_assignment.public_inputs@ == old(
                self,
            ).witness_assignment.public_inputs@,
            final(self).witness_assignment.secret_inputs@ == old(
                self,
            ).witness_assignment.secret_inputs@,
            final(self).witness_assignment.internal_wires@ == old(
                self,
            ).witness_assignment.internal_wires@,
            final(self).curve == old(self).curve,
            final(self).backend == old(self).backend,
    {
        self.custom_constraints.push(constraint);
    }

    /// The number of witness variables of all kinds.
    pub fn total_witness_variables(&self) -> (n: usize)
        requires
            self.witness_assignment.public_inputs@.len() + self.witness_assignment.secret_inputs@.len()
                + self.witness_assignment.internal_wires@.len() <= usize::MAX,
        ensures
            n == self.witness_assignment.public_inputs@.len()
                + self.witness_assignment.secret_inputs@.len()
                + self.witness_assignment.internal_wires@.len(),
    {
        self.witness_assignment.public_inputs.len() + self.witness_assignment.secret_inputs.len()
            + self.witness_assignment.internal_wires.len()
    }
}

impl Default for GnarkFuzzerConfig {
    fn default() -> (c: Self)
        ensures
            c.curve == GnarkCurve::BN254,
            c.backend == GnarkBackend::Groth16,
    {
        GnarkFuzzerConfig::new()
    }
}

/// The outline of a Gnark circuit.
#[derive(Debug, Clone)]
pub struct GnarkCircuit {
    pub name: String,
    pub curve: GnarkCurve,
    pub backend: GnarkBackend,
    pub public_inputs: usize,
    pub secret_inputs: usize,
    pub constraints: usize,
    pub compiled: bool,
}

impl GnarkCircuit {
    /// A circuit with a name, curve and backend, and nothing else yet.
    pub fn new(name: String, curve: GnarkCurve, backend: GnarkBackend) -> (c: Self)
        ensures
            c.name == name,
            c.curve == curve,
            c.backend == backend,
            c.public_inputs == 0,
            c.secret_inputs == 0,
            c.constraints == 0,
            !c.compiled,
    {
        GnarkCircuit {
            name,
            curve,
            backend,
            public_inputs: 0,
            secret_inputs: 0,
            constraints: 0,
            compiled: false,
        }
    }

    /// The circuit of a Go source file: named after the file's stem
    /// (`unknown` without one), on BN254 with Groth16.
    pub fn parse_from_go(path: &str) -> (r: Result<Self, String>)
        ensures
            r matches Ok(c) && c.curve == GnarkCurve::BN254 && c.backend == GnarkBackend::Groth16
                && c.name@ == match file_stem_of(path@) {
                Some(s) => s,
                None => "unknown"@,
            } && c.public_inputs == 0 && c.secret_inputs == 0 && c.constraints == 0 && !c.compiled,
    {
        let name = match file_stem(path) {
            Some(s) => s,
            None => owned("unknown"),
        };
        Ok(GnarkCircuit::new(name, GnarkCurve::BN254, GnarkBackend::Groth16))
    }
}

} // verus!
