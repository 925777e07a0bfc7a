use zk_circuit_fuzzer::analysis::feature_extraction::CircuitFeatureExtractor;
use zk_circuit_fuzzer::analysis::llm::LLMAnalyzer;
use zk_circuit_fuzzer::analysis::static_analysis::{IssueType, StaticAnalyzer};
use zk_circuit_fuzzer::circuit::parser::{Circuit, Signal, SignalDirection, SignalType};
use zk_circuit_fuzzer::analysis::symbolic::SymbolicAnalyzer;

#[test]
fn test_feature_extractor_creation() {
    let _extractor = CircuitFeatureExtractor::new();
    assert!(true);
}

#[test]
fn test_feature_names() {
    let names = CircuitFeatureExtractor::get_feature_names();
    assert_eq!(names.len(), 26);
    assert_eq!(names[0], "total_signals");
    assert_eq!(names[25], "bug_risk_score");
}

#[test]
fn llm_test_analyzer_creation() {
    let analyzer = LLMAnalyzer::new();
    let info = analyzer.get_model_info();
    assert_eq!(info.model_name, "default-zk-analyzer");
}

#[test]
fn static_analysis_test_analyzer_creation() {
    let _analyzer = StaticAnalyzer::new();
    assert!(true);
}

#[test]
fn symbolic_test_analyzer_creation() {
    let analyzer = SymbolicAnalyzer::new();
    assert_eq!(analyzer.get_vars_count(), 0);
}

#[test]
fn llm_configuration_and_suggestions() {
    let mut analyzer = LLMAnalyzer::new();
    assert!(!analyzer.get_model_info().api_configured);
    analyzer.configure("m2".to_string(), Some("http://x".to_string()));
    let info = analyzer.get_model_info();
    assert_eq!(info.model_name, "m2");
    assert!(info.api_configured);
    assert_eq!(
        analyzer.generate_test_suggestions("template T() {}"),
        vec![
            "Test with zero inputs".to_string(),
            "Test with maximum field values".to_string(),
            "Test with boundary values".to_string(),
        ]
    );
}

#[test]
fn symbolic_check_is_unsatisfiable_and_empty() {
    let analyzer = SymbolicAnalyzer::new();
    let r = analyzer.check_sat();
    assert!(!r.is_satisfiable);
    assert!(r.model.is_none());
    assert!(r.unsat_core.is_empty());
    assert_eq!(analyzer.get_constraints_count(), 0);
}

#[test]
fn collect_issues_runs_every_check_in_order() {
    let circuit = Circuit {
        name: "c".to_string(),
        templates: Vec::new(),
        components: Vec::new(),
        signals: vec![Signal {
            name: "w".to_string(),
            direction: SignalDirection::Intermediate,
            signal_type: SignalType::Field,
            dimensions: Vec::new(),
        }],
        constraints: Vec::new(),
    };
    let issues = StaticAnalyzer::new().collect_issues(&circuit);
    assert_eq!(issues.len(), 2);
    assert_eq!(issues[0].issue_type, IssueType::UnderConstrained);
    assert_eq!(
        issues[0].description,
        "Circuit may be under-constrained: 1 witness signals but only 0 constraints"
    );
    assert_eq!(issues[1].issue_type, IssueType::UnusedSignal);
    assert_eq!(issues[1].location, "signal: w");
}
