use zk_circuit_fuzzer::integration::FuzzingStatistics;
use zk_circuit_fuzzer::monitor::ResourceLimits;
use zk_circuit_fuzzer::{FuzzerError, FuzzerResult};

#[test]
fn test_resource_limits_default() {
    let limits = ResourceLimits::default();
    assert_eq!(limits.max_cpu_percent, 90);
    assert_eq!(limits.max_memory_percent, 85);
}

#[test]
fn resource_limits_default_queue_and_memory() {
    let limits = ResourceLimits::default();
    assert_eq!(limits.max_queue_depth, 10000);
    assert_eq!(limits.min_available_memory, 512 * 1024 * 1024);
}

#[test]
fn fuzzing_statistics_start_at_zero() {
    let s = FuzzingStatistics::new();
    assert_eq!(s.total_evaluations, 0);
    assert_eq!(s.constraint_solves, 0);
    assert_eq!(s.constraint_satisfiable, 0);
    assert_eq!(s.property_tests_run, 0);
    assert_eq!(s.property_tests_passed, 0);
    assert_eq!(s.invariants_violated, 0);
    assert_eq!(s.bugs_found, 0);
    assert_eq!(s.elapsed_time.as_nanos(), 0);
    assert_eq!(FuzzingStatistics::default().elapsed_time.as_secs(), 0);
}

#[test]
fn fuzzer_error_messages() {
    assert_eq!(FuzzerError::Parser("bad".to_string()).message(), "Parser error: bad");
    assert_eq!(FuzzerError::ConstraintError("c".to_string()).message(), "Constraint error: c");
    assert_eq!(FuzzerError::TCCTError("t".to_string()).message(), "TCCT error: t");
    assert_eq!(FuzzerError::EmulationError("e".to_string()).message(), "Emulation error: e");
    assert_eq!(FuzzerError::FuzzingError("f".to_string()).message(), "Fuzzing error: f");
    assert_eq!(FuzzerError::AnalysisError("a".to_string()).message(), "Analysis error: a");
    assert_eq!(FuzzerError::Generic("g".to_string()).message(), "Error: g");
}

#[test]
fn io_errors_convert_and_keep_their_text() {
    let io = std::io::Error::new(std::io::ErrorKind::NotFound, "gone");
    let e: FuzzerError = FuzzerError::from(io);
    assert!(matches!(e, FuzzerError::IoError(_)));
    assert_eq!(e.message(), "I/O error: gone");
    let r: FuzzerResult<u8> = Err(e);
    assert!(r.is_err());
}

use zk_circuit_fuzzer::monitor::{cpu_times, total_memory_bytes, used_memory_bytes};

const MEMINFO: &str = "MemTotal:       16384000 kB\nMemFree:         1000000 kB\nMemAvailable:    9000000 kB\nBuffers:          200000 kB\nCached:          3000000 kB\n";

#[test]
fn total_memory_from_meminfo() {
    assert_eq!(total_memory_bytes(MEMINFO), Some(16384000 * 1024));
    assert_eq!(total_memory_bytes("MemFree: 5 kB\n"), None);
    assert_eq!(total_memory_bytes("MemTotal: lots\nMemTotal: +7 kB"), Some(7 * 1024));
    assert_eq!(total_memory_bytes("MemTotal:\t3 kB\r\n"), Some(3 * 1024));
    assert_eq!(total_memory_bytes("MemTotal: 18446744073709551616 kB"), None);
    assert_eq!(total_memory_bytes(""), None);
}

#[test]
fn used_memory_from_meminfo() {
    let total = 16384000u64 * 1024;
    assert_eq!(used_memory_bytes(MEMINFO, total), (16384000 - 1000000 - 200000 - 3000000) * 1024);
    // later lines win, and a subtraction stops at zero
    assert_eq!(used_memory_bytes("MemFree: 5\nMemFree: 9\n", 10 * 1024), 1024);
    assert_eq!(used_memory_bytes("Cached: 50\n", 10 * 1024), 0);
    assert_eq!(used_memory_bytes("MemFree: x\n", 10 * 1024), 10 * 1024);
}

#[test]
fn cpu_times_from_stat() {
    let stat = "cpu  100 20 30 850 5 0 0\ncpu0 50 10 15 425\n";
    assert_eq!(cpu_times(stat), Some((150, 1000)));
    assert_eq!(cpu_times("cpu 0 0 0 0\ncpu 1 1 1 1\n"), Some((3, 4)));
    assert_eq!(cpu_times("cpu 1 2 3\n"), None);
    assert_eq!(cpu_times("cpux 1 2 3 4\n"), None);
    assert_eq!(cpu_times("cpu 18446744073709551615 18446744073709551615 1 1"), Some((36893488147419103231, 36893488147419103232)));
}

use zk_circuit_fuzzer::integration::{crossover_genes, solution_genes};
use zk_circuit_fuzzer::strmap::StrMap;

#[test]
fn crossover_takes_a_prefix_of_one_parent_and_the_rest_of_the_other() {
    assert_eq!(crossover_genes(&vec![1, 2, 3], &vec![7, 8, 9], 1), vec![1, 8, 9]);
    assert_eq!(crossover_genes(&vec![1, 2, 3], &vec![7, 8, 9, 10], 0), vec![7, 8, 9, 10]);
    assert_eq!(crossover_genes(&vec![1, 2], &vec![7, 8], 2), vec![1, 2]);
}

#[test]
fn solution_genes_read_the_model_or_the_fallback() {
    let mut model = StrMap::new();
    model.insert("input1".to_string(), -1i64);
    assert_eq!(solution_genes(&model, 5, 6), vec![u64::MAX, 6]);
    model.insert("input2".to_string(), 42i64);
    assert_eq!(solution_genes(&model, 5, 6), vec![u64::MAX, 42]);
}
