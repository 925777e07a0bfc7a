//! The vocabulary of constraint-guided input generation: declared
//! variables and their sorts, what a solver answers, and what it optimizes.
use crate::strmap::StrMap;
use vstd::prelude::*;

verus! {

/// A declared variable and its sort.
#[derive(Debug, Clone)]
pub struct Variable {
    pub name: String,
    pub var_type: VarType,
}

/// The sorts a variable can have.
#[derive(Debug, Clone, Copy, PartialEq, Eq, Structural)]
pub enum VarType {
    Int,
    Bool,
    Real,
    BV(u32),
}

/// What a solver answered: satisfiable or not, with a model of the integer
/// variables, the names in an unsatisfiable core, and why no model came.
#[derive(Debug)]
pub struct SolveResult {
    pub sat: bool,
    pub model: StrMap<i64>,
    pub unsat_core: Vec<String>,
    pub reason: Option<String>,
}

/// A variable to push up or down.
#[derive(Debug, Clone)]
pub enum OptimizeObjective {
    Maximize(String),
    Minimize(String),
}

} // verus!
