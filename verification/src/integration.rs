//! Counts kept by a fuzzing campaign that combines constraint solving,
//! property tests and a genetic search.
use crate::clock::{duration_from_secs, nanos_in};
use crate::strmap::{has_key, value_for, StrMap};
use std::time::Duration;
use vstd::prelude::*;

verus! {

/// What a combined fuzzing campaign counted, and how long it ran.
#[derive(Debug, Clone)]
pub struct FuzzingStatistics {
    pub total_evaluations: usize,
    pub constraint_solves: usize,
    pub constraint_satisfiable: usize,
    pub property_tests_run: usize,
    pub property_tests_passed: usize,
    pub invariants_violated: usize,
    pub bugs_found: usize,
    pub elapsed_time: Duration,
}

impl FuzzingStatistics {
    /// Every count zero, and no time elapsed.
    pub open spec fn counts_zero(self) -> bool {
        &&& self.total_evaluations == 0
        &&& self.constraint_solves == 0
        &&& self.constraint_satisfiable == 0
        &&& self.property_tests_run == 0
        &&& self.property_tests_passed == 0
        &&& self.invariants_violated == 0
        &&& self.bugs_found == 0
    }

    /// Statistics with every count zero and an elapsed time of zero seconds.
    pub fn new() -> (s: Self)
        ensures
            s.counts_zero(),
            nanos_in(s.elapsed_time) == 0,
    {
        FuzzingStatistics {
            total_evaluations: 0,
            constraint_solves: 0,
            constraint_satisfiable: 0,
            property_tests_run: 0,
            property_tests_passed: 0,
            invariants_violated: 0,
            bugs_found: 0,
            elapsed_time: duration_from_secs(0),
        }
    }
}

impl Default for FuzzingStatistics {
    /// The statistics of `new`.
    fn default() -> (s: Self)
        ensures
            s.counts_zero(),
            nanos_in(s.elapsed_time) == 0,
    {
        FuzzingStatistics::new()
    }
}

/// The genes of a child of two genomes: the first parent's genes before
/// the crossover point, then the second parent's from that point on.
pub fn crossover_genes(first: &Vec<u64>, second: &Vec<u64>, point: usize) -> (r: Vec<u64>)
    requires
        point <= first@.len(),
        point <= second@.len(),
    ensures
        r@ == first@.take(point as int) + second@.skip(point as int),
{
    let mut genes: Vec<u64> = Vec::new();
    let mut i: usize = 0;
    while i < point
        invariant
            i <= point <= first@.len(),
            genes@ == first@.take(i as int),
        decreases point - i,
    {
        genes.push(first[i]);
        i += 1;
        assert(genes@ =~= first@.take(i as int));
    }
    let mut j: usize = point;
    while j < second.len()
        invariant
            point <= j <= second@.len(),
            genes@ == first@.take(point as int) + second@.subrange(point as int, j as int),
        decreases second@.len() - j,
    {
        genes.push(second[j]);
        j += 1;
        assert(genes@ =~= first@.take(point as int) + second@.subrange(point as int, j as int));
    }
    assert(second@.subrange(point as int, j as int) =~= second@.skip(point as int));
    genes
}

/// The value a solver's model gives a variable, or the fallback.
pub open spec fn model_value(model: Seq<(Seq<char>, i64)>, name: Seq<char>, fallback: i64) -> i64 {
    if has_key(model, name) {
        value_for(model, name)
    } else {
        fallback
    }
}

/// The genes of the genome a solver's model describes: the values of
/// `input1` and `input2` (each the fallback where the model has none), read
/// as unsigned 64-bit words.
pub fn solution_genes(model: &StrMap<i64>, fallback1: i64, fallback2: i64) -> (r: Vec<u64>)
    ensures
        r@ == seq![
            model_value(model@, "input1"@, fallback1) as u64,
            model_value(model@, "input2"@, fallback2) as u64,
        ],
{
    let input1: i64 = match model.get("input1") {
        Some(v) => *v,
        None => fallback1,
    };
    let input2: i64 = match model.get("input2") {
        Some(v) => *v,
        None => fallback2,
    };
    let r = vec![input1 as u64, input2 as u64];
    assert(r@ =~= seq![input1 as u64, input2 as u64]);
    r
}

} // verus!
