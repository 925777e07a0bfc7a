//! Symbolic analysis: the result shape of a satisfiability check. No solver
//! stands behind it yet, so every check reports an unsatisfiable, empty system.
use crate::strmap::StrMap;
use vstd::prelude::*;

verus! {

/// The symbolic analyzer.
#[derive(Debug)]
pub struct SymbolicAnalyzer;

/// The result of a satisfiability check.
#[derive(Debug, Clone)]
pub struct SymbolicAnalysisResult {
    pub is_satisfiable: bool,
    pub model: Option<StrMap<i64>>,
    pub unsat_core: Vec<String>,
    pub analysis_metadata: AnalysisMetadata,
}

/// Facts about a check.
#[derive(Debug, Clone, Copy, PartialEq, Eq, Structural)]
pub struct AnalysisMetadata {
    pub variables_count: usize,
    pub constraints_count: usize,
    pub solving_time_ms: u64,
    pub timeout_reached: bool,
}

impl SymbolicAnalyzer {
    /// An analyzer.
    pub fn new() -> (r: Self) {
        SymbolicAnalyzer
    }

    /// Checks satisfiability: unsatisfiable, with no model, no core, no
    /// variables or constraints, no time spent and no timeout.
    pub fn check_sat(&self) -> (r: SymbolicAnalysisResult)
        ensures
            !r.is_satisfiable,
            r.model is None,
            r.unsat_core@.len() == 0,
            r.analysis_metadata == (AnalysisMetadata {
                variables_count: 0,
                constraints_count: 0,
                solving_time_ms: 0,
                timeout_reached: false,
            }),
    {
        SymbolicAnalysisResult {
            is_satisfiable: false,
            model: None,
            unsat_core: Vec::new(),
            analysis_metadata: AnalysisMetadata {
                variables_count: 0,
                constraints_count: 0,
                solving_time_ms: 0,
                timeout_reached: false,
            },
        }
    }

    /// The number of symbolic variables: none.
    pub fn get_vars_count(&self) -> (n: usize)
        ensures
            n == 0,
    {
        0
    }

    /// The number of constraints: none.
    pub fn get_constraints_count(&self) -> (n: usize)
        ensures
            n == 0,
    {
        0
    }
}

impl Default for SymbolicAnalyzer {
    fn default() -> (r: Self) {
        SymbolicAnalyzer::new()
    }
}

} // verus!
