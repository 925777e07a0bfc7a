use zk_circuit_fuzzer::target::halo2::Halo2Circuit as Halo2Target;
use zk_circuit_fuzzer::target::{TargetFactory, TargetType, ZKTarget};
use zk_circuit_fuzzer::targets::circom::{CircomFuzzerConfig, CircomVersion};
use zk_circuit_fuzzer::targets::gnark::{GnarkBackend, GnarkCircuit, GnarkCurve, GnarkFuzzerConfig};
use zk_circuit_fuzzer::targets::halo2::{CustomGate, GateConstraint, Halo2Circuit, Halo2FuzzerConfig};
use zk_circuit_fuzzer::targets::noir::{NoirBackend, NoirFuzzerConfig};

#[test]
fn circom_test_config_creation() {
    let config = CircomFuzzerConfig::new();
    assert_eq!(config.version, CircomVersion::V2);
}

#[test]
fn gnark_test_config_creation() {
    let config = GnarkFuzzerConfig::new();
    assert_eq!(config.curve, GnarkCurve::BN254);
    assert_eq!(config.backend, GnarkBackend::Groth16);
}

#[test]
fn test_add_witness() {
    let mut config = GnarkFuzzerConfig::new();
    config.add_public_input("input_a".to_string());
    config.add_secret_input("witness_x".to_string());
    assert_eq!(config.witness_assignment.public_inputs.len(), 1);
    assert_eq!(config.witness_assignment.secret_inputs.len(), 1);
}

#[test]
fn test_total_witness_variables() {
    let mut config = GnarkFuzzerConfig::new();
    config.add_public_input("a".to_string());
    config.add_secret_input("b".to_string());
    config.witness_assignment.internal_wires.push("c".to_string());
    assert_eq!(config.total_witness_variables(), 3);
}

#[test]
fn gnark_test_circuit_creation() {
    let circuit = GnarkCircuit::new("test_circuit".to_string(), GnarkCurve::BLS12_381, GnarkBackend::Plonk);
    assert_eq!(circuit.name, "test_circuit");
    assert_eq!(circuit.curve, GnarkCurve::BLS12_381);
    assert_eq!(circuit.backend, GnarkBackend::Plonk);
}

#[test]
fn halo2_test_config_creation() {
    let config = Halo2FuzzerConfig::new();
    assert_eq!(config.k, 5);
    assert_eq!(config.instance_columns, 1);
}

#[test]
fn test_add_custom_gate() {
    let mut config = Halo2FuzzerConfig::new();
    let gate = CustomGate {
        name: "test_gate".to_string(),
        poly_degree: 2,
        constraints: vec![GateConstraint {
            name: "constraint1".to_string(),
            expression: "a + b = c".to_string(),
            degree: 2,
        }],
    };
    config.add_custom_gate(gate);
    assert_eq!(config.custom_gates.len(), 1);
}

#[test]
fn halo2_test_circuit_creation() {
    let circuit = Halo2Circuit::new("test_circuit".to_string(), 8);
    assert_eq!(circuit.name, "test_circuit");
    assert_eq!(circuit.k, 8);
}

#[test]
fn noir_test_config_creation() {
    let config = NoirFuzzerConfig::new();
    assert_eq!(config.backend, NoirBackend::Acir);
}

#[test]
fn test_halo2_circuit_creation() {
    let circuit = Halo2Target::new("test_circuit".to_string(), 8);
    assert_eq!(circuit.name(), "test_circuit");
    assert_eq!(circuit.k(), 8);
}

#[test]
fn test_halo2_circuit_metadata() {
    let mut circuit = Halo2Target::new("test".to_string(), 5);
    circuit.set_public_inputs(2);
    circuit.set_private_inputs(3);
    circuit.set_constraints(10);

    let metadata = circuit.metadata();
    assert_eq!(metadata.target_type, "halo2");
    assert_eq!(metadata.public_inputs, 2);
    assert_eq!(metadata.private_inputs, 3);
    assert_eq!(metadata.constraints, 10);
    assert_eq!(metadata.name, "test");
    assert_eq!(metadata.version, "0.1");
    assert_eq!(metadata.wires, 0);
    assert_eq!(metadata.gates, 0);
}

#[test]
fn test_halo2_random_input_generation() {
    let mut circuit = Halo2Target::new("test".to_string(), 5);
    circuit.set_public_inputs(1);
    circuit.set_private_inputs(1);

    let input = circuit.generate_random_input();
    assert_eq!(input.len(), 64); // 2 inputs * 32 bytes each
}

#[test]
fn test_target_type_from_extension() {
    assert_eq!(TargetType::from_extension("circom"), Some(TargetType::Circom));
    assert_eq!(TargetType::from_extension("go"), Some(TargetType::Gnark));
    assert_eq!(TargetType::from_extension("rs"), Some(TargetType::Halo2));
    assert_eq!(TargetType::from_extension("nr"), Some(TargetType::Noir));
    assert_eq!(TargetType::from_extension("txt"), None);
}

#[test]
fn test_target_type_as_str() {
    assert_eq!(TargetType::Circom.as_str(), "circom");
    assert_eq!(TargetType::Gnark.as_str(), "gnark");
    assert_eq!(TargetType::Halo2.as_str(), "halo2");
    assert_eq!(TargetType::Noir.as_str(), "noir");
}

#[test]
fn a_type_name_reads_back_except_noir() {
    for t in [TargetType::Circom, TargetType::Gnark, TargetType::Halo2] {
        assert_eq!(TargetType::from_extension(t.as_str()), Some(t));
    }
    assert_eq!(TargetType::from_extension(TargetType::Noir.as_str()), None);
    assert_eq!(TargetType::from_extension("gnark"), Some(TargetType::Gnark));
    assert_eq!(TargetType::from_extension("halo2"), Some(TargetType::Halo2));
}

#[test]
fn the_factory_reads_the_extension() {
    assert_eq!(TargetFactory::target_type_of("a/b/c.circom").unwrap(), TargetType::Circom);
    assert_eq!(TargetFactory::target_type_of("x.go").unwrap(), TargetType::Gnark);
    assert_eq!(TargetFactory::target_type_of("noext").unwrap_err(), "No file extension found");
    assert_eq!(TargetFactory::target_type_of("f.txt").unwrap_err(), "Unsupported target type: txt");
    let t = TargetFactory::from_path("dir/my_circuit.rs").unwrap();
    assert_eq!(t.name(), "my_circuit");
    assert_eq!(t.metadata().target_type, "halo2");
    assert_eq!(TargetFactory::from_path("c.nr").err().unwrap(), "No loader for noir targets");
    assert_eq!(TargetFactory::from_path("c.txt").err().unwrap(), "Unsupported target type: txt");
}

#[test]
fn halo2_targets_load_by_file_stem() {
    let c = Halo2Target::parse("some/dir/widget.rs").unwrap();
    assert_eq!(c.name(), "widget");
    assert_eq!(c.k(), 5);
    assert_eq!(c.public_input_count(), 0);
    assert_eq!(c.validate_input(&[1, 2]), Ok(true));
    assert_eq!(Halo2Target::parse("").unwrap_err(), "Invalid file name");
}

#[test]
fn source_files_name_their_circuits() {
    let g = GnarkCircuit::parse_from_go("circuits/mul.go").unwrap();
    assert_eq!(g.name, "mul");
    assert_eq!(g.curve, GnarkCurve::BN254);
    let h = Halo2Circuit::parse_from_rust("src/add.rs").unwrap();
    assert_eq!(h.name, "add");
    assert_eq!(h.k, 5);
    assert_eq!(Halo2Circuit::parse_from_rust("").unwrap().name, "unknown");
}

#[test]
fn halo2_gate_constraints_add_up() {
    let mut config = Halo2FuzzerConfig::new();
    assert_eq!(config.total_constraints(), 0);
    for n in [2usize, 3] {
        let constraints = (0..n)
            .map(|i| GateConstraint { name: format!("c{}", i), expression: "x".to_string(), degree: 1 })
            .collect();
        config.add_custom_gate(CustomGate { name: "g".to_string(), poly_degree: 1, constraints });
    }
    assert_eq!(config.total_constraints(), 5);
}
