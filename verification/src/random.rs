//! Random numbers from `rand` and `rand_chacha`.
//!
//! A random draw is not a function of its arguments; each wrapper states
//! only what holds of every outcome (a length, a range).
use rand::Rng;
use rand::SeedableRng;
use rand_chacha::ChaCha8Rng;
use vstd::prelude::*;

verus! {

#[verifier::external_type_specification]
#[verifier::external_body]
pub struct ExChaCha8Rng(rand_chacha::ChaCha8Rng);

/// `ChaCha8Rng::from_entropy`: a generator seeded from the operating
/// system's entropy source (it panics if that source fails, which no
/// argument can rule out).
#[verifier::external_body]
pub(crate) fn rng_from_entropy() -> ChaCha8Rng {
    ChaCha8Rng::from_entropy()
}

/// `rng.gen::<u64>()`: a uniformly drawn 64-bit number (it does not panic).
#[verifier::external_body]
pub(crate) fn random_u64(rng: &mut ChaCha8Rng) -> u64
    no_unwind
{
    rng.gen::<u64>()
}

/// `rng.gen::<[u8; 32]>()`: 32 random bytes (it does not panic).
#[verifier::external_body]
pub(crate) fn random_bytes32(rng: &mut ChaCha8Rng) -> (r: Vec<u8>)
    ensures
        r@.len() == 32,
    no_unwind
{
    let b: [u8; 32] = rng.gen();
    b.to_vec()
}

/// `rng.gen_range(0..n)`: a number below `n` (an empty range panics, hence
/// the `requires`; a non-empty one does not).
#[verifier::external_body]
pub(crate) fn random_below(rng: &mut ChaCha8Rng, n: usize) -> (r: usize)
    requires
        n > 0,
    ensures
        r < n,
    no_unwind
{
    rng.gen_range(0..n)
}

/// `rand::random::<u8>()`: a byte from the thread-local generator.
#[verifier::external_body]
pub(crate) fn thread_random_byte() -> u8 {
    rand::random::<u8>()
}

} // verus!
