//! Generation of random inputs for a circuit's signals, reduced modulo the
//! field when a modulus is set.
use crate::bignum::{mag_value, trunc_rem, BigNum};
use crate::clock::unix_time_secs;
use crate::random::{random_bytes32, random_u64, rng_from_entropy};
use crate::strmap::{insert_entry, StrMap};
use crate::text::{owned, push_str};
use rand_chacha::ChaCha8Rng;
use vstd::prelude::*;

verus! {

/// Ways of generating inputs.
#[derive(Debug, Clone, Copy, PartialEq, Eq, Structural)]
pub enum GenerationStrategy {
    Random,
    Boundary,
    Structured,
    PropertyBased,
    Focused,
    Adaptive,
}

/// The name of a strategy, as its `Debug` form prints it.
pub open spec fn strategy_name(s: GenerationStrategy) -> Seq<char> {
    match s {
        GenerationStrategy::Random => "Random"@,
        GenerationStrategy::Boundary => "Boundary"@,
        GenerationStrategy::Structured => "Structured"@,
        GenerationStrategy::PropertyBased => "PropertyBased"@,
        GenerationStrategy::Focused => "Focused"@,
        GenerationStrategy::Adaptive => "Adaptive"@,
    }
}

/// A generated set of inputs.
#[derive(Debug, Clone)]
pub struct GeneratedInput {
    pub values: StrMap<BigNum>,
    pub strategy_used: GenerationStrategy,
    pub metadata: InputMetadata,
}

/// How an input set came about.
#[derive(Debug, Clone)]
pub struct InputMetadata {
    pub generation_id: usize,
    pub timestamp: u64,
    pub seed: u64,
    pub notes: String,
}

/// Generation counts.
#[derive(Debug, Clone, Copy, PartialEq, Eq, Structural)]
pub struct GenerationStats {
    pub total_generated: usize,
    pub strategy: GenerationStrategy,
}

/// A drawn value reduced by the modulus, if one is set (the remainder
/// takes the sign of the drawn value, which is never negative).
pub open spec fn reduce(v: int, modulus: Option<BigNum>) -> int {
    match modulus {
        Some(m) => trunc_rem(v, m@),
        None => v,
    }
}

/// Reducing a non-negative draw by a positive modulus gives a value below
/// the modulus that differs from the draw by a multiple of it; a draw
/// already below the modulus stays; without a modulus nothing changes.
pub proof fn lemma_reduce_range(v: int, m: crate::bignum::BigNum)
    requires
        v >= 0,
        m@ > 0,
    ensures
        0 <= reduce(v, Some(m)) < m@,
        (v - reduce(v, Some(m))) % m@ == 0,
        v < m@ ==> reduce(v, Some(m)) == v,
        reduce(v, None) == v,
{
    let q = v / m@;
    assert(crate::bignum::trunc_div(v, m@) == q);
    assert(v == m@ * q + v % m@) by (nonlinear_arith)
        requires
            m@ > 0,
            q == v / m@,
    ;
    assert(v - m@ * q == v % m@);
    assert((m@ * q) % m@ == 0) by (nonlinear_arith)
        requires
            m@ > 0,
    ;
    if v < m@ {
        assert(q == 0) by (nonlinear_arith)
            requires
                0 <= v < m@,
                q == v / m@,
        ;
        assert(m@ * q == 0) by (nonlinear_arith)
            requires
                q == 0,
        ;
    }
}

/// 2^256.
pub open spec fn two_pow_256() -> int {
    vstd::arithmetic::power::pow(256, 32)
}

/// Whether `x` is what reducing some 256-bit draw gives.
pub open spec fn is_generated_value(x: int, modulus: Option<BigNum>) -> bool {
    exists|v: int| 0 <= v < two_pow_256() && x == #[trigger] reduce(v, modulus)
}

/// The names of a list of signal name slices, as they are stored.
pub open spec fn name_views(names: Seq<&str>) -> Seq<Seq<char>> {
    names.map_values(|n: &str| n@)
}

/// The keys a set of inputs for these names has: each name once, in the
/// order of its first occurrence.
pub open spec fn keys_for(names: Seq<Seq<char>>) -> Seq<Seq<char>>
    decreases names.len(),
{
    if names.len() == 0 {
        seq![]
    } else {
        let r = keys_for(names.drop_last());
        if r.contains(names.last()) {
            r
        } else {
            r.push(names.last())
        }
    }
}

/// Generates inputs.
pub struct InputGenerator {
    rng: ChaCha8Rng,
    strategy: GenerationStrategy,
    field_modulus: Option<BigNum>,
    generation_count: usize,
}

impl InputGenerator {
    /// The strategy.
    pub closed spec fn current_strategy(self) -> GenerationStrategy {
        self.strategy
    }

    /// The field modulus, if one is set.
    pub closed spec fn modulus(self) -> Option<BigNum> {
        self.field_modulus
    }

    /// How many input sets have been generated.
    pub closed spec fn count(self) -> usize {
        self.generation_count
    }

    /// A generator of random inputs with no modulus.
    pub fn new() -> (g: Self)
        ensures
            g.current_strategy() == GenerationStrategy::Random,
            g.modulus() is None,
            g.count() == 0,
    {
        InputGenerator {
            rng: rng_from_entropy(),
            strategy: GenerationStrategy::Random,
            field_modulus: None,
            generation_count: 0,
        }
    }

    /// The strategy.
    pub fn strategy(&self) -> (s: GenerationStrategy)
        ensures
            s == self.current_strategy(),
    {
        self.strategy
    }

    /// Sets the strategy.
    pub fn set_strategy(&mut self, strategy: GenerationStrategy)
        ensures
            final(self).current_strategy() == strategy,
            final(self).modulus() == old(self).modulus(),
            final(self).count() == old(self).count(),
    {
        self.strategy = strategy;
    }

    /// Sets the field modulus.
    pub fn set_field_modulus(&mut self, modulus: BigNum)
        ensures
            final(self).modulus() == Some(modulus),
            final(self).current_strategy() == old(self).current_strategy(),
            final(self).count() == old(self).count(),
    {
        self.field_modulus = Some(modulus);
    }

    /// A drawn value reduced by the modulus (see `reduce`).
    pub fn reduce_value(value: &BigNum, modulus: &Option<BigNum>) -> (r: BigNum)
        requires
            modulus matches Some(m) ==> m@ != 0,
        ensures
            r@ == reduce(value@, *modulus),
    {
        match modulus {
            Some(m) => value.rem_trunc(m),
            None => value.clone(),
        }
    }

    /// A random value: 32 random bytes read little-endian, reduced by the
    /// modulus.
    fn generate_random_value(&mut self) -> (r: BigNum)
        requires
            old(self).modulus() matches Some(m) ==> m@ != 0,
        ensures
            is_generated_value(r@, old(self).modulus()),
            final(self).modulus() == old(self).modulus(),
            final(self).current_strategy() == old(self).current_strategy(),
            final(self).count() == old(self).count(),
    {
        let bytes = random_bytes32(&mut self.rng);
        let value = BigNum::from_le_bytes(bytes.as_slice());
        proof {
            crate::bignum::lemma_mag_value_below(bytes@);
        }
        let r = InputGenerator::reduce_value(&value, &self.field_modulus);
        assert(reduce(value@, self.field_modulus) == r@);
        r
    }

    /// One set of inputs: a random value (see `is_generated_value`) under
    /// each name, a later duplicate name replacing the earlier value; the
    /// set is counted and numbered, and noted with the strategy's name.
    pub fn generate_input(&mut self, signal_names: &[&str]) -> (r: GeneratedInput)
        requires
            old(self).modulus() matches Some(m) ==> m@ != 0,
            old(self).count() < usize::MAX,
        ensures
            crate::strmap::keys_of(r.values@) == keys_for(name_views(signal_names@)),
            forall|i: int|
                0 <= i < r.values@.len() ==> is_generated_value(
                    (#[trigger] r.values@[i]).1@,
                    old(self).modulus(),
                ),
            r.strategy_used == old(self).current_strategy(),
            r.metadata.generation_id == old(self).count() + 1,
            r.metadata.notes@ == "Generated using "@ + strategy_name(old(self).current_strategy()),
            final(self).count() == old(self).count() + 1,
            final(self).modulus() == old(self).modulus(),
            final(self).current_strategy() == old(self).current_strategy(),
    {
        let mut values: StrMap<BigNum> = StrMap::new();
        let seed = random_u64(&mut self.rng);
        let ghost names = name_views(signal_names@);
        let mut i: usize = 0;
        assert(names.take(0) =~= Seq::<Seq<char>>::empty());
        assert(crate::strmap::keys_of(values@) =~= Seq::<Seq<char>>::empty());
        while i < signal_names.len()
            invariant
                i <= signal_names.len(),
                names == name_views(signal_names@),
                crate::strmap::keys_of(values@) == keys_for(names.take(i as int)),
                forall|j: int|
                    0 <= j < values@.len() ==> is_generated_value(
                        (#[trigger] values@[j]).1@,
                        old(self).modulus(),
                    ),
                crate::strmap::distinct_keys(values@),
                old(self).modulus() matches Some(m) ==> m@ != 0,
                self.modulus() == old(self).modulus(),
                self.current_strategy() == old(self).current_strategy(),
                self.count() == old(self).count(),
            decreases signal_names.len() - i,
        {
            proof {
                assert(names.take(i + 1).drop_last() =~= names.take(i as int));
                assert(names.take(i + 1).last() == signal_names@[i as int]@);
            }
            let value = self.generate_random_value();
            let name = owned(signal_names[i]);
            let ghost before = values@;
            values.insert(name, value);
            proof {
                lemma_keys_insert(before, signal_names@[i as int]@, value);
                assert forall|j: int| 0 <= j < values@.len() implies is_generated_value(
                    (#[trigger] values@[j]).1@,
                    old(self).modulus(),
                ) by {
                    if values@[j] != before[j] || j >= before.len() {
                        assert(values@[j].1 == value);
                    }
                }
            }
            i += 1;
        }
        assert(names.take(i as int) =~= names);
        self.generation_count = self.generation_count + 1;
        let mut notes = String::new();
        push_str(&mut notes, "Generated using ");
        match self.strategy {
            GenerationStrategy::Random => push_str(&mut notes, "Random"),
            GenerationStrategy::Boundary => push_str(&mut notes, "Boundary"),
            GenerationStrategy::Structured => push_str(&mut notes, "Structured"),
            GenerationStrategy::PropertyBased => push_str(&mut notes, "PropertyBased"),
            GenerationStrategy::Focused => push_str(&mut notes, "Focused"),
            GenerationStrategy::Adaptive => push_str(&mut notes, "Adaptive"),
        }
        // A wall clock that reads before the epoch gives the timestamp 0.
        let timestamp = match unix_time_secs() {
            Some(t) => t,
            None => 0,
        };
        GeneratedInput {
            values,
            strategy_used: self.strategy,
            metadata: InputMetadata {
                generation_id: self.generation_count,
                timestamp,
                seed,
                notes,
            },
        }
    }

    /// `count` sets of inputs, one after another.
    pub fn generate_batch(&mut self, signal_names: &[&str], count: usize) -> (r: Vec<GeneratedInput>)
        requires
            old(self).modulus() matches Some(m) ==> m@ != 0,
            old(self).count() + count <= usize::MAX,
        ensures
            r@.len() == count,
            forall|k: int|
                0 <= k < count ==> crate::strmap::keys_of((#[trigger] r@[k]).values@) == keys_for(
                    name_views(signal_names@),
                ) && r@[k].metadata.generation_id == old(self).count() + k + 1,
            final(self).count() == old(self).count() + count,
            final(self).modulus() == old(self).modulus(),
            final(self).current_strategy() == old(self).current_strategy(),
    {
        let mut out: Vec<GeneratedInput> = Vec::new();
        let mut k: usize = 0;
        while k < count
            invariant
                k <= count,
                out@.len() == k,
                self.count() == old(self).count() + k,
                old(self).count() + count <= usize::MAX,
                old(self).modulus() matches Some(m) ==> m@ != 0,
                self.modulus() == old(self).modulus(),
                self.current_strategy() == old(self).current_strategy(),
                forall|j: int|
                    0 <= j < k ==> crate::strmap::keys_of((#[trigger] out@[j]).values@) == keys_for(
                        name_views(signal_names@),
                    ) && out@[j].metadata.generation_id == old(self).count() + j + 1,
            decreases count - k,
        {
            let g = self.generate_input(signal_names);
            out.push(g);
            k += 1;
        }
        out
    }

    /// The number of sets generated, and the strategy.
    pub fn get_stats(&self) -> (r: GenerationStats)
        ensures
            r.total_generated == self.count(),
            r.strategy == self.current_strategy(),
    {
        GenerationStats { total_generated: self.generation_count, strategy: self.strategy }
    }
}

/// Storing under a name adds it to the keys once.
pub proof fn lemma_keys_insert(s: Seq<(Seq<char>, BigNum)>, k: Seq<char>, v: BigNum)
    requires
        crate::strmap::distinct_keys(s),
    ensures
        crate::strmap::keys_of(insert_entry(s, k, v)) == if crate::strmap::keys_of(s).contains(k) {
            crate::strmap::keys_of(s)
        } else {
            crate::strmap::keys_of(s).push(k)
        },
{
    let ks = crate::strmap::keys_of(s);
    if crate::strmap::has_key(s, k) {
        let p = crate::strmap::key_index(s, k);
        assert(ks[p] == k);
        assert(crate::strmap::keys_of(insert_entry(s, k, v)) =~= ks);
    } else {
        if ks.contains(k) {
            let p = choose|p: int| 0 <= p < ks.len() && ks[p] == k;
            assert(s[p].0 == k);
        }
        assert(crate::strmap::keys_of(insert_entry(s, k, v)) =~= ks.push(k));
    }
}

impl Default for InputGenerator {
    fn default() -> (g: Self)
        ensures
            g.current_strategy() == GenerationStrategy::Random,
            g.modulus() is None,
            g.count() == 0,
    {
        InputGenerator::new()
    }
}

} // verus!
