//! The trace-constraint consistency engine over an extracted constraint
//! system: its settings, its test outcomes and the counts it keeps.
use crate::bignum::BigNum;
use crate::r1cs::constraints::ConstraintSystem;
use crate::r1cs::emulator::WitnessEmulator;
use crate::strmap::StrMap;
use crate::text::owned;
use vstd::prelude::*;

verus! {

/// The outcome of one consistency test.
#[derive(Debug, Clone)]
pub enum TCCTResult {
    /// The trace satisfies the constraints.
    Consistent,
    /// The trace breaks a constraint.
    Violation(ViolationDetails),
    /// The test could not be completed.
    Inconclusive(String),
}

/// A constraint that a trace breaks, and the values that break it.
#[derive(Debug, Clone)]
pub struct ViolationDetails {
    pub constraint_index: usize,
    pub values: StrMap<BigNum>,
    pub description: String,
}

/// The engine's settings.
#[derive(Debug, Clone, Copy, PartialEq, Eq, Structural)]
pub struct TCCTConfig {
    pub max_iterations: usize,
    pub use_symbolic: bool,
    pub timeout_ms: u64,
    pub verbose: bool,
}

impl Default for TCCTConfig {
    /// A thousand iterations, no symbolic execution, a five-second
    /// timeout, quiet.
    fn default() -> (c: Self)
        ensures
            c.max_iterations == 1000,
            !c.use_symbolic,
            c.timeout_ms == 5000,
            !c.verbose,
    {
        TCCTConfig { max_iterations: 1000, use_symbolic: false, timeout_ms: 5000, verbose: false }
    }
}

/// How many tests ran, and how each ended. The counts wrap at the width of
/// `usize`.
#[derive(Debug, Clone, Copy, PartialEq, Eq, Structural)]
pub struct TCCTStats {
    pub tests_run: usize,
    pub consistent_count: usize,
    pub violation_count: usize,
    pub inconclusive_count: usize,
}

impl TCCTStats {
    /// All counts zero.
    pub open spec fn is_zero(self) -> bool {
        &&& self.tests_run == 0
        &&& self.consistent_count == 0
        &&& self.violation_count == 0
        &&& self.inconclusive_count == 0
    }
}

impl Default for TCCTStats {
    /// All counts zero.
    fn default() -> (s: Self)
        ensures
            s.is_zero(),
    {
        TCCTStats { tests_run: 0, consistent_count: 0, violation_count: 0, inconclusive_count: 0 }
    }
}

/// The count after one more event, wrapping at the width of `usize`.
pub open spec fn bumped(n: usize) -> usize {
    if n == usize::MAX {
        0
    } else {
        (n + 1) as usize
    }
}

fn bump(n: usize) -> (r: usize)
    ensures
        r == bumped(n),
{
    n.wrapping_add(1)
}

/// The text of the error when no constraint system is set.
pub open spec fn no_system_message() -> Seq<char> {
    "No constraint system configured"@
}

/// The text of the result of a consistency test, as yet inconclusive.
pub open spec fn consistency_pending_message() -> Seq<char> {
    "Testing not yet implemented"@
}

/// The text of the result of a trace test, as yet inconclusive.
pub open spec fn trace_pending_message() -> Seq<char> {
    "Trace testing not yet implemented"@
}

/// The text of the error when symbolic analysis is switched off.
pub open spec fn symbolic_off_message() -> Seq<char> {
    "Symbolic analysis is not enabled"@
}

/// The consistency engine.
pub struct TCCTEngine {
    config: TCCTConfig,
    constraint_system: Option<ConstraintSystem>,
    emulator: WitnessEmulator,
    stats: TCCTStats,
}

impl TCCTEngine {
    /// The settings.
    pub closed spec fn settings(self) -> TCCTConfig {
        self.config
    }

    /// The constraint system under test.
    pub closed spec fn system(self) -> Option<ConstraintSystem> {
        self.constraint_system
    }

    /// The counts so far.
    pub closed spec fn counts(self) -> TCCTStats {
        self.stats
    }

    /// An engine with the default settings, no constraint system and zero counts.
    pub fn new() -> (e: Self)
        ensures
            e.settings() == (TCCTConfig {
                max_iterations: 1000,
                use_symbolic: false,
                timeout_ms: 5000,
                verbose: false,
            }),
            e.system() is None,
            e.counts().is_zero(),
    {
        TCCTEngine {
            config: TCCTConfig::default(),
            constraint_system: None,
            emulator: WitnessEmulator::new(),
            stats: TCCTStats::default(),
        }
    }

    /// An engine with the given settings, no constraint system and zero counts.
    pub fn with_config(config: TCCTConfig) -> (e: Self)
        ensures
            e.settings() == config,
            e.system() is None,
            e.counts().is_zero(),
    {
        TCCTEngine {
            config,
            constraint_system: None,
            emulator: WitnessEmulator::new(),
            stats: TCCTStats::default(),
        }
    }

    /// The settings.
    pub fn config(&self) -> (c: &TCCTConfig)
        ensures
            *c == self.settings(),
    {
        &self.config
    }

    /// Sets the constraint system to test.
    pub fn set_constraint_system(&mut self, cs: ConstraintSystem)
        ensures
            final(self).system() == Some(cs),
            final(self).settings() == old(self).settings(),
            final(self).counts() == old(self).counts(),
    {
        self.constraint_system = Some(cs);
    }

    /// Runs a consistency test on the constraint system. Without one it
    /// fails and counts nothing; with one it counts a run and an
    /// inconclusive outcome, which is what it reports.
    pub fn test_consistency(&mut self) -> (r: Result<TCCTResult, String>)
        ensures
            final(self).system() == old(self).system(),
            final(self).settings() == old(self).settings(),
            old(self).system() is None ==> (r matches Err(m) && m@ == no_system_message()),
            old(self).system() is None ==> final(self).counts() == old(self).counts(),
            old(self).system() is Some ==> (r matches Ok(TCCTResult::Inconclusive(m))
                && m@ == consistency_pending_message()),
            old(self).system() is Some ==> final(self).counts() == (TCCTStats {
                tests_run: bumped(old(self).counts().tests_run),
                inconclusive_count: bumped(old(self).counts().inconclusive_count),
                ..old(self).counts()
            }),
    {
        if self.constraint_system.is_none() {
            return Err(owned("No constraint system configured"));
        }
        self.stats.tests_run = bump(self.stats.tests_run);
        let result = TCCTResult::Inconclusive(owned("Testing not yet implemented"));
        match &result {
            TCCTResult::Consistent => {
                self.stats.consistent_count = bump(self.stats.consistent_count);
            },
            TCCTResult::Violation(_) => {
                self.stats.violation_count = bump(self.stats.violation_count);
            },
            TCCTResult::Inconclusive(_) => {
                self.stats.inconclusive_count = bump(self.stats.inconclusive_count);
            },
        }
        Ok(result)
    }

    /// Tests a given trace against the constraint system. Without one it
    /// fails and counts nothing; with one it reports an inconclusive outcome
    /// and counts a run and an inconclusive test.
    pub fn test_trace(&mut self, trace: &[BigNum]) -> (r: Result<TCCTResult, String>)
        ensures
            final(self).system() == old(self).system(),
            final(self).settings() == old(self).settings(),
            old(self).system() is None ==> (r matches Err(m) && m@ == no_system_message()),
            old(self).system() is None ==> final(self).counts() == old(self).counts(),
            old(self).system() is Some ==> (r matches Ok(TCCTResult::Inconclusive(m))
                && m@ == trace_pending_message()),
            old(self).system() is Some ==> final(self).counts() == (TCCTStats {
                tests_run: bumped(old(self).counts().tests_run),
                inconclusive_count: bumped(old(self).counts().inconclusive_count),
                ..old(self).counts()
            }),
    {
        if self.constraint_system.is_none() {
            return Err(owned("No constraint system configured"));
        }
        self.stats.tests_run = bump(self.stats.tests_run);
        self.stats.inconclusive_count = bump(self.stats.inconclusive_count);
        Ok(TCCTResult::Inconclusive(owned("Trace testing not yet implemented")))
    }

    /// The counts so far.
    pub fn get_stats(&self) -> (s: &TCCTStats)
        ensures
            *s == self.counts(),
    {
        &self.stats
    }

    /// Sets all counts back to zero.
    pub fn reset_stats(&mut self)
        ensures
            final(self).counts().is_zero(),
            final(self).system() == old(self).system(),
            final(self).settings() == old(self).settings(),
    {
        self.stats = TCCTStats::default();
    }

    /// The constraint system, if one is set.
    pub fn constraint_system(&self) -> (r: Option<&ConstraintSystem>)
        ensures
            r == match self.system() {
                Some(c) => Some(&c),
                None => None,
            },
    {
        match &self.constraint_system {
            Some(c) => Some(c),
            None => None,
        }
    }

    /// Runs symbolic analysis: refused unless the settings switch it on,
    /// and as yet nothing more.
    pub fn run_symbolic_analysis(&mut self) -> (r: Result<(), String>)
        ensures
            *final(self) == *old(self),
            r is Ok <==> old(self).settings().use_symbolic,
            r matches Err(m) ==> m@ == symbolic_off_message(),
    {
        if !self.config.use_symbolic {
            return Err(owned("Symbolic analysis is not enabled"));
        }
        Ok(())
    }
}

impl Default for TCCTEngine {
    /// The engine of `new`.
    fn default() -> (e: Self)
        ensures
            e.system() is None,
            e.counts().is_zero(),
            e.settings().max_iterations == 1000,
    {
        TCCTEngine::new()
    }
}

} // verus!
