use zk_circuit_fuzzer::bignum::BigNum;
use zk_circuit_fuzzer::fuzzing::coverage::CoverageTracker;
use zk_circuit_fuzzer::fuzzing::genetic::{fresh_metadata, generate_random_genome};
use zk_circuit_fuzzer::fuzzing::input_gen::{GenerationStrategy, InputGenerator};
use zk_circuit_fuzzer::fuzzing::mutator::{
    apply_mutation, generate_interesting_values, identify_modified_genes, MutationStrategy, Mutator,
};
use zk_circuit_fuzzer::strmap::StrMap;
use rand::SeedableRng;

#[test]
fn test_tracker_creation() {
    let tracker = CoverageTracker::new();
    assert_eq!(tracker.total_constraints(), 0);
}

#[test]
fn test_coverage_recording() {
    let mut tracker = CoverageTracker::new();
    tracker.initialize(10, 5, 8);

    tracker.cover_constraint(0);
    tracker.cover_constraint(1);
    tracker.cover_signal("input_a".to_string());

    let report = tracker.coverage_counts();
    assert_eq!(report.covered_constraints, 2);
    assert_eq!(report.covered_signals, 1);
}

#[test]
fn test_generator_creation() {
    let generator = InputGenerator::new();
    assert_eq!(generator.strategy(), GenerationStrategy::Random);
}

#[test]
fn test_generate_input() {
    let mut generator = InputGenerator::new();
    let signal_names = ["input_a", "input_b", "input_c"];
    let input = generator.generate_input(&signal_names);
    assert_eq!(input.values.len(), 3);
}

#[test]
fn test_mutator_creation() {
    let mutator = Mutator::new();
    assert_eq!(mutator.strategies().len(), 4);
}

#[test]
fn test_mutation() {
    let mut mutator = Mutator::new();
    let input = vec![BigNum::from_i64(42), BigNum::from_i64(100)];
    let result = mutator.mutate(&input);
    assert!(result.success);
}

#[test]
fn covering_twice_counts_once_and_uncovered_are_the_rest() {
    let mut tracker = CoverageTracker::new();
    tracker.initialize(4, 2, 2);
    tracker.cover_constraint(1);
    tracker.cover_constraint(1);
    tracker.cover_constraint(3);
    tracker.cover_path(7);
    tracker.cover_path(7);
    tracker.cover_branch(0, true);
    tracker.cover_branch(9, true);
    let c = tracker.coverage_counts();
    assert_eq!(c.covered_constraints, 2);
    assert_eq!(c.path_count, 1);
    assert_eq!(c.covered_branches, 1);
    assert_eq!(c.total_branches, 2);
    assert_eq!(tracker.get_uncovered_constraints(), vec![0, 2]);
    assert!(tracker.get_uncovered_signals().is_empty());
}

#[test]
fn trace_coverage_marks_signals_and_constraints() {
    let mut tracker = CoverageTracker::new();
    tracker.initialize(3, 2, 0);
    let mut values = StrMap::new();
    values.insert("x".to_string(), BigNum::from_i64(1));
    values.insert("y".to_string(), BigNum::from_i64(2));
    tracker.record_trace_coverage(&values, &[0, 2, 2]);
    let c = tracker.coverage_counts();
    assert_eq!(c.covered_signals, 2);
    assert_eq!(c.covered_constraints, 2);
    assert_eq!(tracker.get_uncovered_constraints(), vec![1]);
}

#[test]
fn arithmetic_mutation_steps() {
    let interesting = generate_interesting_values();
    let input = vec![BigNum::from_i64(42), BigNum::from_i64(100)];
    let up = apply_mutation(&input, MutationStrategy::Arithmetic, 0, 0, 0, &interesting);
    assert!(up[0].same_value(&BigNum::from_i64(43)));
    assert!(up[1].same_value(&BigNum::from_i64(100)));
    let down = apply_mutation(&input, MutationStrategy::Arithmetic, 1, 1, 0, &interesting);
    assert!(down[1].same_value(&BigNum::from_i64(99)));
    let doubled = apply_mutation(&input, MutationStrategy::Arithmetic, 0, 2, 0, &interesting);
    assert!(doubled[0].same_value(&BigNum::from_i64(84)));
    let halved = apply_mutation(&[BigNum::from_i64(-7)], MutationStrategy::Arithmetic, 0, 3, 0, &interesting);
    assert!(halved[0].same_value(&BigNum::from_i64(-3)));
}

#[test]
fn flip_mutations_change_one_gene() {
    let interesting = generate_interesting_values();
    let input = vec![BigNum::from_i64(42)];
    // 42 = 0b101010; flipping bit 0 of byte 0 gives 43
    let bit = apply_mutation(&input, MutationStrategy::BitFlip, 0, 0, 0, &interesting);
    assert!(bit[0].same_value(&BigNum::from_i64(43)));
    // inverting byte 0 of 42 gives 255 - 42
    let byte = apply_mutation(&input, MutationStrategy::ByteFlip, 0, 0, 0, &interesting);
    assert!(byte[0].same_value(&BigNum::from_i64(213)));
    let iv = apply_mutation(&input, MutationStrategy::InterestingValues, 0, 4, 0, &interesting);
    assert!(iv[0].same_value(&BigNum::from_i64(i32::MAX as i64)));
    assert_eq!(identify_modified_genes(&input, &iv), vec![0]);
}

#[test]
fn interesting_values_and_changed_positions() {
    let v = generate_interesting_values();
    assert_eq!(v.len(), 7);
    assert!(v[2].same_value(&BigNum::from_i64(-1)));
    assert!(v[5].same_value(&BigNum::from_i64(i64::MIN)));
    let a = vec![BigNum::from_i64(1), BigNum::from_i64(2)];
    let b = vec![BigNum::from_i64(1), BigNum::from_i64(3), BigNum::from_i64(4)];
    assert_eq!(identify_modified_genes(&a, &b), vec![1, 2]);
    assert!(identify_modified_genes(&a, &a).is_empty());
}

#[test]
fn an_empty_input_is_not_mutated() {
    let mut mutator = Mutator::new();
    let result = mutator.mutate(&[]);
    assert!(!result.success);
    assert!(result.mutated.is_empty());
    assert_eq!(mutator.get_stats().total_mutations, 0);
    let r2 = mutator.mutate(&[BigNum::from_i64(5)]);
    assert!(r2.success);
    assert_eq!(mutator.get_stats().total_mutations, 1);
    assert_eq!(mutator.get_stats().strategies_available, 4);
}

#[test]
fn generated_values_respect_the_modulus() {
    let mut generator = InputGenerator::new();
    generator.set_field_modulus(BigNum::from_i64(7));
    let input = generator.generate_input(&["a", "b", "a"]);
    assert_eq!(input.values.len(), 2);
    for i in 0..input.values.len() {
        let v = input.values.value_at(i);
        let (neg, bytes) = v.to_bytes_le();
        assert!(!neg);
        assert!(bytes.len() <= 1 && bytes.iter().all(|b| *b < 7));
    }
    let batch = generator.generate_batch(&["z"], 3);
    assert_eq!(batch.len(), 3);
    assert_eq!(generator.get_stats().total_generated, 4);
}

#[test]
fn reduce_value_takes_the_remainder() {
    let r = InputGenerator::reduce_value(&BigNum::from_i64(23), &Some(BigNum::from_i64(5)));
    assert!(r.same_value(&BigNum::from_i64(3)));
    let same = InputGenerator::reduce_value(&BigNum::from_i64(23), &None);
    assert!(same.same_value(&BigNum::from_i64(23)));
}

#[test]
fn random_genomes_have_the_asked_length() {
    let mut rng = rand_chacha::ChaCha8Rng::seed_from_u64(1);
    let g = generate_random_genome(&mut rng, 5);
    assert_eq!(g.len(), 5);
    let m = fresh_metadata(9);
    assert_eq!(m.id, 9);
    assert!(m.parent_ids.is_empty());
}
