//! The parts of the genetic search that hold no fitness values: bug
//! reports, individual metadata, and random genomes.
use crate::bignum::BigNum;
use crate::random::random_bytes32;
use crate::strmap::StrMap;
use rand_chacha::ChaCha8Rng;
use vstd::prelude::*;

verus! {

/// What an individual carries besides its genome and fitness.
#[derive(Debug, Clone)]
pub struct IndividualMetadata {
    pub id: usize,
    pub parent_ids: Vec<usize>,
    pub mutation_count: usize,
    pub crossover_count: usize,
    pub bugs_found: Vec<BugReport>,
}

/// A bug found while fuzzing.
#[derive(Debug, Clone)]
pub struct BugReport {
    pub bug_type: BugType,
    pub severity: BugSeverity,
    pub description: String,
    pub input_values: StrMap<BigNum>,
    pub constraint_index: Option<usize>,
    pub trace_data: Option<String>,
}

/// Kinds of bugs.
#[derive(Debug, Clone, Copy, PartialEq, Eq, Structural)]
pub enum BugType {
    UnderConstrained,
    OverConstrained,
    ConstraintViolation,
    DivisionByZero,
    Overflow,
    AbnormalTermination,
    InconsistentTrace,
}

/// How serious a bug is.
#[derive(Debug, Clone, Copy, PartialEq, Eq, Structural)]
pub enum BugSeverity {
    Critical,
    High,
    Medium,
    Low,
    Informational,
}

/// The metadata of a fresh individual numbered `id`: no parents, no
/// mutations, crossovers or bugs.
pub fn fresh_metadata(id: usize) -> (m: IndividualMetadata)
    ensures
        m.id == id,
        m.parent_ids@.len() == 0,
        m.mutation_count == 0,
        m.crossover_count == 0,
        m.bugs_found@.len() == 0,
{
    IndividualMetadata {
        id,
        parent_ids: Vec::new(),
        mutation_count: 0,
        crossover_count: 0,
        bugs_found: Vec::new(),
    }
}

/// A genome of `length` random genes, each drawn from 32 random bytes
/// read little-endian, so below 2^256.
pub fn generate_random_genome(rng: &mut ChaCha8Rng, length: usize) -> (g: Vec<BigNum>)
    ensures
        g@.len() == length,
        forall|i: int|
            0 <= i < length ==> 0 <= (#[trigger] g@[i])@ < vstd::arithmetic::power::pow(256, 32),
{
    let mut g: Vec<BigNum> = Vec::new();
    let mut i: usize = 0;
    while i < length
        invariant
            i <= length,
            g@.len() == i,
            forall|j: int| 0 <= j < i ==> 0 <= (#[trigger] g@[j])@ < vstd::arithmetic::power::pow(256, 32),
        decreases length - i,
    {
        let bytes = random_bytes32(rng);
        proof {
            crate::bignum::lemma_mag_value_below(bytes@);
        }
        g.push(BigNum::from_le_bytes(bytes.as_slice()));
        i += 1;
    }
    g
}

} // verus!
