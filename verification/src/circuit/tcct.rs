//! Execution traces and the trace-constraint consistency engine.
use crate::bignum::BigNum;
use crate::circuit::constraints::ConstraintSystem;
use crate::strmap::StrMap;
use crate::text::push_str;
use vstd::prelude::*;

verus! {

/// A trace of a circuit's execution.
#[derive(Debug, Clone)]
pub struct ExecutionTrace {
    pub signal_values: StrMap<BigNum>,
    pub component_outputs: StrMap<StrMap<BigNum>>,
    pub execution_steps: Vec<ExecutionStep>,
}

/// One step of an execution trace.
#[derive(Debug, Clone)]
pub struct ExecutionStep {
    pub step_id: usize,
    pub operation: String,
    pub inputs: Vec<BigNum>,
    pub output: Option<BigNum>,
    pub constraints_checked: Vec<usize>,
}

/// A constraint that a trace violates.
#[derive(Debug, Clone)]
pub struct ConstraintViolation {
    pub constraint_index: usize,
    pub left_value: BigNum,
    pub right_value: BigNum,
    pub expected_relation: String,
    pub signal_values: StrMap<BigNum>,
}

/// An anomaly found in a trace.
#[derive(Debug, Clone)]
pub struct TraceAnomaly {
    pub step_id: usize,
    pub anomaly_type: AnomalyType,
    pub description: String,
    pub severity: AnomalySeverity,
}

/// Kinds of trace anomalies.
#[derive(Debug, Clone, Copy, PartialEq, Eq, Structural)]
pub enum AnomalyType {
    DivisionByZero,
    Overflow,
    Underflow,
    InvalidSignalValue,
    InconsistentComponentOutput,
    UnexpectedTermination,
}

/// How serious an anomaly is.
#[derive(Debug, Clone, Copy, PartialEq, Eq, Structural)]
pub enum AnomalySeverity {
    Critical,
    High,
    Medium,
    Low,
}

/// The consistency engine: it checks traces against a constraint system.
#[derive(Debug)]
pub struct TCCTEngine {
    constraint_system: Option<ConstraintSystem>,
}

/// Why a consistency check failed.
#[derive(Debug, Clone)]
pub enum TCCTError {
    NoConstraintSystem,
    EvaluationError(String),
}

impl TCCTError {
    /// The error as text.
    pub fn message(&self) -> (r: String)
        ensures
            r@ == match self {
                TCCTError::NoConstraintSystem => "No constraint system set"@,
                TCCTError::EvaluationError(m) => "Evaluation error: "@ + m@,
            },
    {
        let mut r = String::new();
        match self {
            TCCTError::NoConstraintSystem => push_str(&mut r, "No constraint system set"),
            TCCTError::EvaluationError(m) => {
                push_str(&mut r, "Evaluation error: ");
                push_str(&mut r, m.as_str());
            },
        }
        assert(r@ =~= match self {
            TCCTError::NoConstraintSystem => "No constraint system set"@,
            TCCTError::EvaluationError(m) => "Evaluation error: "@ + m@,
        });
        r
    }
}

impl TCCTEngine {
    /// An engine with no constraint system.
    pub fn new() -> (e: Self)
        ensures
            e.constraint_system() is None,
    {
        TCCTEngine { constraint_system: None }
    }

    /// The constraint system to check against.
    pub closed spec fn constraint_system(self) -> Option<ConstraintSystem> {
        self.constraint_system
    }

    /// Sets the constraint system to check against.
    pub fn set_constraint_system(&mut self, cs: ConstraintSystem)
        ensures
            final(self).constraint_system() == Some(cs),
    {
        self.constraint_system = Some(cs);
    }

    /// The constraint system, if one is set.
    pub fn get_constraint_system(&self) -> (r: Option<&ConstraintSystem>)
        ensures
            r == match self.constraint_system() {
                Some(c) => Some(&c),
                None => None,
            },
    {
        match &self.constraint_system {
            Some(c) => Some(c),
            None => None,
        }
    }

    /// Whether a trace can be checked: a constraint system is set; else the
    /// error that names what is missing.
    pub fn ready(&self) -> (r: Result<(), TCCTError>)
        ensures
            r is Ok <==> self.constraint_system() is Some,
            r matches Err(e) ==> e is NoConstraintSystem,
    {
        match &self.constraint_system {
            Some(_) => Ok(()),
            None => Err(TCCTError::NoConstraintSystem),
        }
    }
}

impl Default for TCCTEngine {
    fn default() -> (e: Self)
        ensures
            e.constraint_system() is None,
    {
        TCCTEngine::new()
    }
}

} // verus!
