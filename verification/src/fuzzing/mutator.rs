//! Mutation of fuzzing inputs: flipping a bit or a byte of a value's
//! magnitude, small arithmetic steps, and substitution of interesting values.
//!
//! The random choices are drawn first; `apply_mutation` then computes the
//! mutated input from them, and its contract is exact for every choice.
use crate::bignum::{mag_bytes, mag_value, trunc_div, BigNum};
use crate::random::random_below;
use rand_chacha::ChaCha8Rng;
use vstd::prelude::*;

verus! {

/// Ways of mutating an input.
#[derive(Debug, Clone, Copy, PartialEq, Eq, Structural)]
pub enum MutationStrategy {
    BitFlip,
    ByteFlip,
    Arithmetic,
    InterestingValues,
    DictionaryBased,
    Crossover,
}

/// The outcome of one mutation.
#[derive(Debug, Clone)]
pub struct MutationResult {
    pub original: Vec<BigNum>,
    pub mutated: Vec<BigNum>,
    pub strategy_used: MutationStrategy,
    pub genes_modified: Vec<usize>,
    pub success: bool,
}

/// Mutation counts.
#[derive(Debug, Clone, Copy, PartialEq, Eq, Structural)]
pub struct MutationStats {
    pub total_mutations: usize,
    pub strategies_available: usize,
}

/// The values of a list of numbers.
pub open spec fn values(v: Seq<BigNum>) -> Seq<int> {
    v.map_values(|b: BigNum| b@)
}

/// The strategies a mutator draws from.
pub open spec fn default_strategies() -> Seq<MutationStrategy> {
    seq![
        MutationStrategy::BitFlip,
        MutationStrategy::ByteFlip,
        MutationStrategy::Arithmetic,
        MutationStrategy::InterestingValues,
    ]
}

/// The interesting values: 0, 1, -1 and the extremes of `i32` and `i64`.
pub open spec fn interesting_values() -> Seq<int> {
    seq![0, 1, -1, i32::MIN as int, i32::MAX as int, i64::MIN as int, i64::MAX as int]
}

/// A value with one bit of its magnitude bytes flipped, read back as a
/// non-negative number.
pub open spec fn flip_bit_value(x: int, byte: int, bit: int) -> int {
    let b = mag_bytes(x);
    mag_value(b.update(byte, b[byte] ^ (1u8 << (bit as u8)))) as int
}

/// A value with one byte of its magnitude bytes inverted, read back as a
/// non-negative number.
pub open spec fn flip_byte_value(x: int, byte: int) -> int {
    let b = mag_bytes(x);
    mag_value(b.update(byte, !b[byte])) as int
}

/// One arithmetic step: add one, subtract one, double, or halve toward zero.
pub open spec fn arith_value(x: int, op: int) -> int {
    if op == 0 {
        x + 1
    } else if op == 1 {
        x - 1
    } else if op == 2 {
        x * 2
    } else {
        trunc_div(x, 2)
    }
}

/// Whether the choices fit the input and the strategy: a position within
/// the input, and a byte and bit, an operation, or an interesting value.
pub open spec fn picks_ok(v: Seq<int>, s: MutationStrategy, idx: int, p1: int, p2: int) -> bool {
    &&& 0 <= idx < v.len()
    &&& match s {
        MutationStrategy::BitFlip => 0 <= p1 < mag_bytes(v[idx]).len() && 0 <= p2 < 8,
        MutationStrategy::ByteFlip => 0 <= p1 < mag_bytes(v[idx]).len(),
        MutationStrategy::Arithmetic => 0 <= p1 < 4,
        MutationStrategy::InterestingValues => 0 <= p1 < interesting_values().len(),
        _ => true,
    }
}

/// The mutated values for the given choices.
pub open spec fn mutation_values(v: Seq<int>, s: MutationStrategy, idx: int, p1: int, p2: int) -> Seq<
    int,
> {
    match s {
        MutationStrategy::BitFlip => v.update(idx, flip_bit_value(v[idx], p1, p2)),
        MutationStrategy::ByteFlip => v.update(idx, flip_byte_value(v[idx], p1)),
        MutationStrategy::Arithmetic => v.update(idx, arith_value(v[idx], p1)),
        MutationStrategy::InterestingValues => v.update(idx, interesting_values()[p1]),
        _ => v,
    }
}

/// Whether position `i` differs between two lists: it is in one but not
/// the other, or the values differ.
pub open spec fn differs_at(a: Seq<int>, b: Seq<int>, i: int) -> bool {
    (i < a.len()) != (i < b.len()) || (i < a.len() && i < b.len() && a[i] != b[i])
}

/// The positions below `n` at which two lists differ, ascending.
pub open spec fn differing_below(a: Seq<int>, b: Seq<int>, n: nat) -> Seq<usize>
    decreases n,
{
    if n == 0 {
        seq![]
    } else {
        let r = differing_below(a, b, (n - 1) as nat);
        if differs_at(a, b, n - 1) {
            r.push((n - 1) as usize)
        } else {
            r
        }
    }
}

/// The positions at which two lists differ, ascending.
pub open spec fn modified_positions(a: Seq<int>, b: Seq<int>) -> Seq<usize> {
    differing_below(a, b, if a.len() >= b.len() {
        a.len()
    } else {
        b.len()
    })
}

/// A copy of a list of numbers.
pub fn copy_nums(v: &[BigNum]) -> (r: Vec<BigNum>)
    ensures
        values(r@) == values(v@),
{
    let mut r: Vec<BigNum> = Vec::new();
    let mut i: usize = 0;
    while i < v.len()
        invariant
            i <= v.len(),
            values(r@) == values(v@).take(i as int),
        decreases v.len() - i,
    {
        let ghost before = r@;
        let c = v[i].clone();
        assert(c@ == v@[i as int]@);
        r.push(c);
        assert(values(r@) =~= values(before).push(c@));
        assert(values(v@).take(i + 1) =~= values(v@).take(i as int).push(v@[i as int]@));
        i += 1;
    }
    assert(values(v@).take(i as int) =~= values(v@));
    r
}

/// The mutated input for the given choices (see `mutation_values`).
pub fn apply_mutation(
    input: &[BigNum],
    strategy: MutationStrategy,
    idx: usize,
    p1: usize,
    p2: usize,
    interesting: &Vec<BigNum>,
) -> (r: Vec<BigNum>)
    requires
        picks_ok(values(input@), strategy, idx as int, p1 as int, p2 as int),
        values(interesting@) == interesting_values(),
    ensures
        values(r@) == mutation_values(values(input@), strategy, idx as int, p1 as int, p2 as int),
{
    let mut result = copy_nums(input);
    let ghost v = values(input@);
    let nv: BigNum = match strategy {
        MutationStrategy::BitFlip => {
            let (_, mut bytes) = input[idx].to_bytes_le();
            let x = bytes[p1] ^ (1u8 << (p2 as u8));
            bytes.set(p1, x);
            BigNum::from_le_bytes(bytes.as_slice())
        },
        MutationStrategy::ByteFlip => {
            let (_, mut bytes) = input[idx].to_bytes_le();
            let x = !bytes[p1];
            bytes.set(p1, x);
            BigNum::from_le_bytes(bytes.as_slice())
        },
        MutationStrategy::Arithmetic => {
            if p1 == 0 {
                input[idx].add(&BigNum::from_i64(1))
            } else if p1 == 1 {
                input[idx].sub(&BigNum::from_i64(1))
            } else if p1 == 2 {
                input[idx].mul(&BigNum::from_i64(2))
            } else {
                input[idx].div_trunc(&BigNum::from_i64(2))
            }
        },
        MutationStrategy::InterestingValues => interesting[p1].clone(),
        _ => {
            return result;
        },
    };
    assert(v[idx as int] == input@[idx as int]@);
    let ghost before = result@;
    result.set(idx, nv);
    assert(values(result@) =~= values(before).update(idx as int, nv@));
    result
}

/// The positions at which two inputs differ (see `modified_positions`).
pub fn identify_modified_genes(original: &[BigNum], mutated: &[BigNum]) -> (r: Vec<usize>)
    ensures
        r@ == modified_positions(values(original@), values(mutated@)),
{
    let ghost a = values(original@);
    let ghost b = values(mutated@);
    let max_len = if original.len() >= mutated.len() {
        original.len()
    } else {
        mutated.len()
    };
    let mut modified: Vec<usize> = Vec::new();
    let mut i: usize = 0;
    while i < max_len
        invariant
            i <= max_len,
            a == values(original@),
            b == values(mutated@),
            max_len == if original.len() >= mutated.len() {
                original.len()
            } else {
                mutated.len()
            },
            modified@ == differing_below(a, b, i as nat),
        decreases max_len - i,
    {
        let in_a = i < original.len();
        let in_b = i < mutated.len();
        let differ = if in_a && in_b {
            !original[i].same_value(&mutated[i])
        } else {
            in_a != in_b
        };
        if differ {
            modified.push(i);
        }
        i += 1;
    }
    modified
}

/// The interesting values, in order.
pub fn generate_interesting_values() -> (r: Vec<BigNum>)
    ensures
        values(r@) == interesting_values(),
{
    let r = vec![
        BigNum::from_i64(0),
        BigNum::from_i64(1),
        BigNum::from_i64(-1),
        BigNum::from_i64(-2147483648),
        BigNum::from_i64(2147483647),
        BigNum::from_i64(-9223372036854775808),
        BigNum::from_i64(9223372036854775807),
    ];
    assert(values(r@) =~= interesting_values());
    r
}

/// Mutates inputs.
pub struct Mutator {
    rng: ChaCha8Rng,
    strategies: Vec<MutationStrategy>,
    interesting_values: Vec<BigNum>,
    mutation_count: usize,
}

impl Mutator {
    #[verifier::type_invariant]
    spec fn mutator_ok(self) -> bool {
        &&& self.strategies@ == default_strategies()
        &&& values(self.interesting_values@) == interesting_values()
    }

    /// How many mutations have been made.
    pub closed spec fn count(self) -> usize {
        self.mutation_count
    }

    /// A mutator with the four default strategies and the interesting values.
    pub fn new() -> (m: Self)
        ensures
            m.count() == 0,
    {
        Mutator {
            rng: crate::random::rng_from_entropy(),
            strategies: vec![
                MutationStrategy::BitFlip,
                MutationStrategy::ByteFlip,
                MutationStrategy::Arithmetic,
                MutationStrategy::InterestingValues,
            ],
            interesting_values: generate_interesting_values(),
            mutation_count: 0,
        }
    }

    /// The strategies drawn from.
    pub fn strategies(&self) -> (r: &Vec<MutationStrategy>)
        ensures
            r@ == default_strategies(),
    {
        proof {
            use_type_invariant(self);
        }
        &self.strategies
    }

    /// Mutates an input: an empty input gives an unsuccessful result with
    /// nothing mutated; otherwise a strategy of the four and fitting choices
    /// are drawn at random, the result holds the input, the mutated input
    /// (see `mutation_values`) and the positions that changed, and one more
    /// mutation is counted.
    pub fn mutate(&mut self, input: &[BigNum]) -> (r: MutationResult)
        requires
            input@.len() > 0 ==> old(self).count() < usize::MAX,
        ensures
            values(r.original@) == values(input@),
            input@.len() == 0 ==> {
                &&& !r.success
                &&& r.mutated@.len() == 0
                &&& r.strategy_used == MutationStrategy::BitFlip
                &&& r.genes_modified@.len() == 0
                &&& final(self).count() == old(self).count()
            },
            input@.len() > 0 ==> {
                &&& r.success
                &&& default_strategies().contains(r.strategy_used)
                &&& exists|idx: int, p1: int, p2: int|
                    picks_ok(values(input@), r.strategy_used, idx, p1, p2) && values(r.mutated@)
                        == #[trigger] mutation_values(values(input@), r.strategy_used, idx, p1, p2)
                &&& r.genes_modified@ == modified_positions(values(input@), values(r.mutated@))
                &&& final(self).count() == old(self).count() + 1
            },
    {
        proof {
            use_type_invariant(&*self);
        }
        if input.len() == 0 {
            return MutationResult {
                original: copy_nums(input),
                mutated: Vec::new(),
                strategy_used: MutationStrategy::BitFlip,
                genes_modified: Vec::new(),
                success: false,
            };
        }
        let k = random_below(&mut self.rng, self.strategies.len());
        let strategy = self.strategies[k];
        let idx = random_below(&mut self.rng, input.len());
        let ghost v = values(input@);
        assert(v[idx as int] == input@[idx as int]@);
        let (p1, p2): (usize, usize) = match strategy {
            MutationStrategy::BitFlip => {
                let (_, bytes) = input[idx].to_bytes_le();
                let b = random_below(&mut self.rng, bytes.len());
                let bit = random_below(&mut self.rng, 8);
                (b, bit)
            },
            MutationStrategy::ByteFlip => {
                let (_, bytes) = input[idx].to_bytes_le();
                let b = random_below(&mut self.rng, bytes.len());
                (b, 0)
            },
            MutationStrategy::Arithmetic => {
                let op = random_below(&mut self.rng, 4);
                (op, 0)
            },
            MutationStrategy::InterestingValues => {
                assert(values(self.interesting_values@).len() == 7);
                let j = random_below(&mut self.rng, self.interesting_values.len());
                (j, 0)
            },
            _ => (0, 0),
        };
        let mutated = apply_mutation(input, strategy, idx, p1, p2, &self.interesting_values);
        let genes_modified = identify_modified_genes(input, mutated.as_slice());
        self.mutation_count = self.mutation_count + 1;
        assert(default_strategies()[k as int] == strategy);
        assert(picks_ok(v, strategy, idx as int, p1 as int, p2 as int));
        MutationResult {
            original: copy_nums(input),
            mutated,
            strategy_used: strategy,
            genes_modified,
            success: true,
        }
    }

    /// The number of mutations made and of strategies available.
    pub fn get_stats(&self) -> (r: MutationStats)
        ensures
            r.total_mutations == self.count(),
            r.strategies_available == 4,
    {
        proof {
            use_type_invariant(self);
        }
        MutationStats { total_mutations: self.mutation_count, strategies_available: self.strategies.len() }
    }
}

/// A mutation changes at most the one position chosen.
pub proof fn lemma_mutation_changes_one(v: Seq<int>, s: MutationStrategy, idx: int, p1: int, p2: int)
    requires
        picks_ok(v, s, idx, p1, p2),
    ensures
        mutation_values(v, s, idx, p1, p2).len() == v.len(),
        forall|i: int|
            0 <= i < v.len() && i != idx ==> #[trigger] mutation_values(v, s, idx, p1, p2)[i] == v[i],
{
}

} // verus!
