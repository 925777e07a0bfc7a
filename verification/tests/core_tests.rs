use zk_circuit_fuzzer::bignum::BigNum;
use zk_circuit_fuzzer::circuit::constraints::ConstraintExtractor as CircuitExtractor;
use zk_circuit_fuzzer::circuit::emulator::WitnessEmulator as CircuitEmulator;
use zk_circuit_fuzzer::circuit::parser::CircomParser as CircuitParser;
use zk_circuit_fuzzer::circuit::parser::ParserError;
use zk_circuit_fuzzer::circuit::tcct::TCCTEngine as CircuitEngine;
use zk_circuit_fuzzer::r1cs::constraints::{ConstraintAnalysis, ConstraintExtractor};
use zk_circuit_fuzzer::r1cs::emulator::{Witness, WitnessEmulator};
use zk_circuit_fuzzer::r1cs::parser::{
    CircomCircuit, CircomParser, Constraint, Expression, SignalDefinition, SignalDirection,
};
use zk_circuit_fuzzer::r1cs::tcct::{TCCTConfig, TCCTEngine, TCCTResult};
use zk_circuit_fuzzer::strmap::StrMap;

fn two_signal_circuit() -> CircomCircuit {
    CircomCircuit {
        name: "test".to_string(),
        templates: Vec::new(),
        components: Vec::new(),
        signals: vec![
            SignalDefinition {
                name: "a".to_string(),
                direction: SignalDirection::Input,
                tags: vec!["public".to_string()],
            },
            SignalDefinition {
                name: "b".to_string(),
                direction: SignalDirection::Output,
                tags: vec![],
            },
        ],
        constraints: vec![Constraint {
            left: Expression::Signal("a".to_string()),
            right: Expression::Signal("b".to_string()),
            output: Some("b".to_string()),
        }],
    }
}

#[test]
fn constraints_test_extractor_creation() {
    let extractor = ConstraintExtractor::new();
    assert!(extractor.get_constraint_system().is_none());
    let _other = CircuitExtractor::new();
    assert!(true);
}

#[test]
fn test_extract_constraints() {
    let circuit = two_signal_circuit();
    let mut extractor = ConstraintExtractor::new();
    let cs = extractor.extract(circuit).unwrap();

    assert_eq!(cs.num_wires, 2);
    assert_eq!(cs.num_constraints, 1);
    assert_eq!(cs.public_inputs.len(), 1);
}

#[test]
fn emulator_test_emulator_creation() {
    let emulator = WitnessEmulator::new();
    assert!(emulator.get_witness().is_none());
    let _other = CircuitEmulator::new();
    assert!(true);
}

#[test]
fn test_witness_creation() {
    let mut witness = Witness::new();
    witness.set("a".to_string(), BigNum::from_i64(42));
    assert!(witness.get("a").unwrap().same_value(&BigNum::from_i64(42)));
}

#[test]
fn test_witness_with_values() {
    let mut values = StrMap::new();
    values.insert("x".to_string(), BigNum::from_i64(10));
    let witness = Witness::with_values(values);
    assert!(witness.get("x").unwrap().same_value(&BigNum::from_i64(10)));
}

#[test]
fn parser_test_parser_creation() {
    let parser = CircomParser::new("template Test() {}".to_string());
    assert_eq!(parser.source(), "template Test() {}");
    let _other = CircuitParser::new();
    assert!(true);
}

#[test]
fn test_parse_empty_circuit() {
    let mut parser = CircomParser::new("".to_string());
    let circuit = parser.parse().unwrap();
    assert_eq!(circuit.name, "parsed_circuit");
    assert!(circuit.templates.is_empty());
}

#[test]
fn test_engine_creation() {
    let engine = TCCTEngine::new();
    assert!(engine.constraint_system().is_none());
    assert_eq!(engine.get_stats().tests_run, 0);
}

#[test]
fn test_with_config() {
    let config = TCCTConfig { max_iterations: 500, verbose: true, ..Default::default() };
    let engine = TCCTEngine::with_config(config);
    assert_eq!(engine.config().max_iterations, 500);
    assert!(engine.config().verbose);
}

#[test]
fn test_test_consistency_without_system() {
    let mut engine = TCCTEngine::new();
    let result = engine.test_consistency();
    assert!(result.is_err());
}

#[test]
fn test_tcct_engine_creation() {
    let engine = CircuitEngine::new();
    assert!(engine.get_constraint_system().is_none());
}

#[test]
fn consistency_with_system_counts_an_inconclusive_run() {
    let mut extractor = ConstraintExtractor::new();
    let cs = extractor.extract(two_signal_circuit()).unwrap().clone();
    let mut engine = TCCTEngine::new();
    engine.set_constraint_system(cs);
    match engine.test_consistency() {
        Ok(TCCTResult::Inconclusive(m)) => assert_eq!(m, "Testing not yet implemented"),
        _ => panic!("expected an inconclusive result"),
    }
    assert_eq!(engine.get_stats().tests_run, 1);
    assert_eq!(engine.get_stats().inconclusive_count, 1);
    match engine.test_trace(&[BigNum::from_i64(1)]) {
        Ok(TCCTResult::Inconclusive(m)) => assert_eq!(m, "Trace testing not yet implemented"),
        _ => panic!("expected an inconclusive result"),
    }
    assert_eq!(engine.get_stats().tests_run, 2);
    assert_eq!(engine.get_stats().inconclusive_count, 2);
    engine.reset_stats();
    assert_eq!(engine.get_stats().tests_run, 0);
}

#[test]
fn consistency_without_system_names_the_missing_system() {
    let mut engine = TCCTEngine::new();
    assert_eq!(engine.test_consistency().unwrap_err(), "No constraint system configured");
    assert_eq!(engine.test_trace(&[]).unwrap_err(), "No constraint system configured");
    assert_eq!(engine.get_stats().tests_run, 0);
}

#[test]
fn symbolic_analysis_needs_the_setting() {
    let mut engine = TCCTEngine::new();
    assert_eq!(engine.run_symbolic_analysis().unwrap_err(), "Symbolic analysis is not enabled");
    let mut on = TCCTEngine::with_config(TCCTConfig { use_symbolic: true, ..Default::default() });
    assert!(on.run_symbolic_analysis().is_ok());
}

#[test]
fn tcct_config_default_values() {
    let c = TCCTConfig::default();
    assert_eq!(c.max_iterations, 1000);
    assert!(!c.use_symbolic);
    assert_eq!(c.timeout_ms, 5000);
    assert!(!c.verbose);
}

#[test]
fn extraction_judges_the_ratio_of_constraints_to_wires() {
    let mut extractor = ConstraintExtractor::new();
    assert!(extractor.analyze().is_err());
    extractor.extract(two_signal_circuit()).unwrap();
    // one constraint on two wires: 5 * 1 < 4 * 2
    assert_eq!(extractor.analyze().unwrap(), ConstraintAnalysis::UnderConstrained);
    assert!(extractor.is_signal_constrained("a"));
    assert!(!extractor.is_signal_constrained("zzz"));
}

#[test]
fn parser_cursor_walks_and_skips_whitespace() {
    let mut parser = CircomParser::new("  ab".to_string());
    assert_eq!(parser.current_char(), Some(' '));
    parser.skip_whitespace();
    assert_eq!(parser.current_char(), Some('a'));
    assert_eq!(parser.peek(), Some('b'));
    assert_eq!(parser.advance(), Some('a'));
    assert_eq!(parser.current_char(), Some('b'));
}

#[test]
fn circuit_parser_reads_template_header() {
    let parser = CircuitParser::new();
    let c = parser.parse("  template Adder(a,b) { }").unwrap();
    assert_eq!(c.name, "Adder");
    assert!(c.signals.is_empty());
    assert!(c.constraints.is_empty());
}

#[test]
fn circuit_parser_reports_where_it_stopped() {
    let parser = CircuitParser::new();
    match parser.parse("123") {
        Err(ParserError::ParseError(m)) => assert_eq!(
            m,
            "Failed to parse circuit: Error(Error { input: \"123\", code: Alpha })"
        ),
        other => panic!("unexpected result: {:?}", other.map(|c| c.name)),
    }
    match parser.parse("template Foo x") {
        Err(ParserError::ParseError(m)) => assert_eq!(
            m,
            "Failed to parse circuit: Error(Error { input: \"x\", code: Tag })"
        ),
        other => panic!("unexpected result: {:?}", other.map(|c| c.name)),
    }
    let e = ParserError::ParseError("m".to_string());
    assert_eq!(e.message(), "Parse error: m");
}
