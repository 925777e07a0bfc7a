//! Language-model analysis of circuits: the analyzer's configuration, the
//! kinds of suspected bugs, and the test suggestions it makes.
use crate::text::owned;
use vstd::prelude::*;

verus! {

/// The language-model analyzer.
#[derive(Debug)]
pub struct LLMAnalyzer {
    model_name: String,
    api_endpoint: Option<String>,
}

/// Kinds of suspected bugs.
#[derive(Debug, Clone, Copy, PartialEq, Eq, Structural)]
pub enum BugType {
    UnderConstrained,
    OverConstrained,
    DivisionByZero,
    Overflow,
    InconsistentConstraints,
    UnusedSignals,
    CircularDependency,
    TypeMismatch,
    Other,
}

/// The model an analyzer uses.
#[derive(Debug, Clone)]
pub struct ModelInfo {
    pub model_name: String,
    pub api_configured: bool,
}

/// The test suggestions every circuit gets.
pub open spec fn test_suggestions() -> Seq<Seq<char>> {
    seq!["Test with zero inputs"@, "Test with maximum field values"@, "Test with boundary values"@]
}

impl LLMAnalyzer {
    /// The model name.
    pub closed spec fn model(self) -> Seq<char> {
        self.model_name@
    }

    /// The endpoint of the model's service, if one is configured.
    pub closed spec fn endpoint(self) -> Option<String> {
        self.api_endpoint
    }

    /// An analyzer for the default model, with no endpoint.
    pub fn new() -> (r: Self)
        ensures
            r.model() == "default-zk-analyzer"@,
            r.endpoint() is None,
    {
        LLMAnalyzer { model_name: owned("default-zk-analyzer"), api_endpoint: None }
    }

    /// Sets the model and the endpoint.
    pub fn configure(&mut self, model_name: String, api_endpoint: Option<String>)
        ensures
            final(self).model() == model_name@,
            final(self).endpoint() == api_endpoint,
    {
        self.model_name = model_name;
        self.api_endpoint = api_endpoint;
    }

    /// Test suggestions for a circuit: the same three for every circuit.
    pub fn generate_test_suggestions(&self, circuit_code: &str) -> (r: Vec<String>)
        ensures
            r@.map_values(|s: String| s@) == test_suggestions(),
    {
        let r = vec![
            owned("Test with zero inputs"),
            owned("Test with maximum field values"),
            owned("Test with boundary values"),
        ];
        assert(r@.map_values(|s: String| s@) =~= test_suggestions());
        r
    }

    /// The model name, and whether an endpoint is configured.
    pub fn get_model_info(&self) -> (r: ModelInfo)
        ensures
            r.model_name@ == self.model(),
            r.api_configured == self.endpoint() is Some,
    {
        ModelInfo { model_name: self.model_name.clone(), api_configured: self.api_endpoint.is_some() }
    }
}

impl Default for LLMAnalyzer {
    fn default() -> (r: Self)
        ensures
            r.model() == "default-zk-analyzer"@,
            r.endpoint() is None,
    {
        LLMAnalyzer::new()
    }
}

} // verus!
