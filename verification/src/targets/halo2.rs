//! Halo2 targets: the fuzzer's configuration for Halo2 circuits, their
//! gates and lookups.
use crate::text::{file_stem, file_stem_of, owned};
use vstd::prelude::*;

verus! {

/// Configuration for fuzzing Halo2 circuits.
#[derive(Debug, Clone)]
pub struct Halo2FuzzerConfig {
    pub k: u32,
    pub instance_columns: usize,
    pub fixed_columns: usize,
    pub advice_columns: usize,
    pub selector_columns: usize,
    pub custom_gates: Vec<CustomGate>,
    pub lookup_arguments: Vec<LookupArgument>,
}

/// A custom gate.
#[derive(Debug, Clone)]
pub struct CustomGate {
    pub name: String,
    pub poly_degree: usize,
    pub constraints: Vec<GateConstraint>,
}

/// A constraint of a gate.
#[derive(Debug, Clone)]
pub struct GateConstraint {
    pub name: String,
    pub expression: String,
    pub degree: usize,
}

/// A lookup argument.
#[derive(Debug, Clone)]
pub struct LookupArgument {
    pub name: String,
    pub input_expression: String,
    pub table_expression: String,
}

/// Kinds of Halo2 bugs.
#[derive(Debug, Clone, Copy, PartialEq, Eq, Structural)]
pub enum Halo2BugType {
    ConstraintSystemUnsatisfiable,
    LookupConstraintViolation,
    PermutationArgumentError,
    InvalidAdviceAssignment,
    ColumnVisibilityViolation,
    GateDegreeExceeded,
    InstanceColumnMismatch,
    SelectorNotAssigned,
    PhaseTransitionError,
    BlindingFactorError,
}

/// The outline of a Halo2 circuit.
#[derive(Debug, Clone)]
pub struct Halo2Circuit {
    pub name: String,
    pub k: u32,
    pub num_instance: usize,
    pub num_fixed: usize,
    pub num_advice: usize,
    pub num_selectors: usize,
    pub custom_gates: Vec<CustomGate>,
    pub lookup_args: Vec<LookupArgument>,
    pub constraint_count: usize,
}

/// The number of constraints of the gates, summed.
pub open spec fn gate_constraints(gs: Seq<CustomGate>) -> nat
    decreases gs.len(),
{
    if gs.len() == 0 {
        0
    } else {
        gate_constraints(gs.drop_last()) + gs.last().constraints@.len()
    }
}

impl Halo2FuzzerConfig {
    /// The default configuration: k = 5 (32 rows), one column of each
    /// kind, no gates and no lookups.
    pub fn new() -> (c: Self)
        ensures
            c.k == 5,
            c.instance_columns == 1,
            c.fixed_columns == 1,
            c.advice_columns == 1,
            c.selector_columns == 1,
            c.custom_gates@.len() == 0,
            c.lookup_arguments@.len() == 0,
    {
        Halo2FuzzerConfig {
            k: 5,
            instance_columns: 1,
            fixed_columns: 1,
            advice_columns: 1,
            selector_columns: 1,
            custom_gates: Vec::new(),
            lookup_arguments: Vec::new(),
        }
    }

    /// Adds a custom gate.
    pub fn add_custom_gate(&mut self, gate: CustomGate)
        ensures
            final(self).custom_gates@ == old(self).custom_gates@.push(gate),
            final(self).lookup_arguments@ == old(self).lookup_arguments@,
            final(self).k == old(self).k,
    {
        self.custom_gates.push(gate);
    }

    /// Adds a lookup argument.
    pub fn add_lookup(&mut self, lookup: LookupArgument)
        ensures
            final(self).lookup_arguments@ == old(self).lookup_arguments@.push(lookup),
            final(self).custom_gates@ == old(self).custom_gates@,
            final(self).k == old(self).k,
    {
        self.lookup_arguments.push(lookup);
    }

    /// The number of constraints of all custom gates.
    pub fn total_constraints(&self) -> (n: usize)
        requires
            gate_constraints(self.custom_gates@) <= usize::MAX,
        ensures
            n == gate_constraints(self.custom_gates@),
    {
        let ghost gs = self.custom_gates@;
        let mut n: usize = 0;
        let mut i: usize = 0;
        assert(gs.take(0) =~= Seq::<CustomGate>::empty());
        while i < self.custom_gates.len()
            invariant
                i <= self.custom_gates.len(),
                gs == self.custom_gates@,
                gate_constraints(gs) <= usize::MAX,
                n == gate_constraints(gs.take(i as int)),
            decreases self.custom_gates.len() - i,
        {
            proof {
                assert(gs.take(i + 1).drop_last() =~= gs.take(i as int));
                lemma_gate_constraints_prefix(gs, i as int + 1);
            }
            n = n + self.custom_gates[i].constraints.len();
            i += 1;
        }
        assert(gs.take(i as int) =~= gs);
        n
    }
}

/// A prefix of the gates has no more constraints than all of them.
pub proof fn lemma_gate_constraints_prefix(gs: Seq<CustomGate>, n: int)
    requires
        0 <= n <= gs.len(),
    ensures
        gate_constraints(gs.take(n)) <= gate_constraints(gs),
    decreases gs.len() - n,
{
    if n < gs.len() {
        lemma_gate_constraints_prefix(gs, n + 1);
        assert(gs.take(n + 1).drop_last() =~= gs.take(n));
    } else {
        assert(gs.take(n) =~= gs);
    }
}

impl Default for Halo2FuzzerConfig {
    fn default() -> (c: Self)
        ensures
            c.k == 5,
    {
        Halo2FuzzerConfig::new()
    }
}

impl Halo2Circuit {
    /// A circuit with a name and domain size, and nothing else yet.
    pub fn new(name: String, k: u32) -> (c: Self)
        ensures
            c.name == name,
            c.k == k,
            c.num_instance == 0,
            c.num_fixed == 0,
            c.num_advice == 0,
            c.num_selectors == 0,
            c.custom_gates@.len() == 0,
            c.lookup_args@.len() == 0,
            c.constraint_count == 0,
    {
        Halo2Circuit {
            name,
            k,
            num_instance: 0,
            num_fixed: 0,
            num_advice: 0,
            num_selectors: 0,
            custom_gates: Vec::new(),
            lookup_args: Vec::new(),
            constraint_count: 0,
        }
    }

    /// The circuit of a Rust source file: named after the file's stem
    /// (`unknown` without one), with k = 5.
    pub fn parse_from_rust(path: &str) -> (r: Result<Self, String>)
        ensures
            r matches Ok(c) && c.k == 5 && c.name@ == match file_stem_of(path@) {
                Some(s) => s,
                None => "unknown"@,
            } && c.custom_gates@.len() == 0 && c.constraint_count == 0,
    {
        let name = match file_stem(path) {
            Some(s) => s,
            None => owned("unknown"),
        };
        Ok(Halo2Circuit::new(name, 5))
    }
}

} // verus!
