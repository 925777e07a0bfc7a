//! Witness computation: assignments of values to a circuit's signals, and
//! random inputs for fuzzing.
use crate::bignum::{mag_value, BigNum};
use crate::circuit::parser::Circuit;
use crate::circuit::tcct::ExecutionTrace;
use crate::random::{random_bytes32, rng_from_entropy};
use crate::strmap::{keys_of, StrMap};
use crate::text::{decimal, push_decimal, push_str};
use rand_chacha::ChaCha8Rng;
use vstd::prelude::*;

verus! {

/// Computes witnesses for a loaded circuit.
pub struct WitnessEmulator {
    circuit: Option<Circuit>,
    rng: ChaCha8Rng,
}

/// Values assigned to a circuit's signals and components.
#[derive(Debug, Clone)]
pub struct WitnessAssignment {
    pub signal_values: StrMap<BigNum>,
    pub component_assignments: StrMap<ComponentAssignment>,
    pub computation_log: Vec<ComputationStep>,
}

/// Values assigned within a component.
#[derive(Debug, Clone)]
pub struct ComponentAssignment {
    pub template_name: String,
    pub parameters: Vec<BigNum>,
    pub signal_assignments: StrMap<BigNum>,
}

/// One step of a witness computation.
#[derive(Debug, Clone)]
pub struct ComputationStep {
    pub step_id: usize,
    pub operation: String,
    pub inputs: Vec<BigNum>,
    pub output: Option<BigNum>,
    pub signal_updated: Option<String>,
}

/// Why a witness computation failed.
#[derive(Debug, Clone)]
pub enum EmulatorError {
    CircuitNotLoaded,
    InvalidInput(String),
    ComputationError(String),
    SignalNotFound(String),
    ComponentNotFound(String),
}

impl EmulatorError {
    /// The error as text.
    pub fn message(&self) -> (r: String)
        ensures
            r@ == match self {
                EmulatorError::CircuitNotLoaded => "Circuit not loaded"@,
                EmulatorError::InvalidInput(m) => "Invalid input: "@ + m@,
                EmulatorError::ComputationError(m) => "Computation error: "@ + m@,
                EmulatorError::SignalNotFound(m) => "Signal not found: "@ + m@,
                EmulatorError::ComponentNotFound(m) => "Component not found: "@ + m@,
            },
    {
        let mut r = String::new();
        match self {
            EmulatorError::CircuitNotLoaded => push_str(&mut r, "Circuit not loaded"),
            EmulatorError::InvalidInput(m) => {
                push_str(&mut r, "Invalid input: ");
                push_str(&mut r, m.as_str());
            },
            EmulatorError::ComputationError(m) => {
                push_str(&mut r, "Computation error: ");
                push_str(&mut r, m.as_str());
            },
            EmulatorError::SignalNotFound(m) => {
                push_str(&mut r, "Signal not found: ");
                push_str(&mut r, m.as_str());
            },
            EmulatorError::ComponentNotFound(m) => {
                push_str(&mut r, "Component not found: ");
                push_str(&mut r, m.as_str());
            },
        }
        assert(r@ =~= match self {
            EmulatorError::CircuitNotLoaded => "Circuit not loaded"@,
            EmulatorError::InvalidInput(m) => "Invalid input: "@ + m@,
            EmulatorError::ComputationError(m) => "Computation error: "@ + m@,
            EmulatorError::SignalNotFound(m) => "Signal not found: "@ + m@,
            EmulatorError::ComponentNotFound(m) => "Component not found: "@ + m@,
        });
        r
    }
}

/// The name of the `i`-th random input.
pub open spec fn input_name(i: nat) -> Seq<char> {
    "input_"@ + decimal(i)
}

/// The names of the random inputs, `input_0` to `input_9`.
pub open spec fn random_input_names() -> Seq<Seq<char>> {
    Seq::new(10, |i: int| input_name(i as nat))
}

/// Whether a set of inputs is one that `generate_random_inputs` makes:
/// the ten names in order, each with a value below 2^256.
pub open spec fn is_random_input_set(m: Seq<(Seq<char>, BigNum)>) -> bool {
    &&& keys_of(m) == random_input_names()
    &&& forall|i: int| 0 <= i < m.len() ==> 0 <= (#[trigger] m[i]).1@ < pow256_32()
}

/// 2^256, the bound of a 32-byte magnitude.
pub open spec fn pow256_32() -> int {
    vstd::arithmetic::power::pow(256, 32)
}

impl WitnessEmulator {
    /// An emulator with no circuit and a generator seeded from entropy.
    pub fn new() -> (e: Self)
        ensures
            e.circuit() is None,
    {
        WitnessEmulator { circuit: None, rng: rng_from_entropy() }
    }

    /// The loaded circuit.
    pub closed spec fn circuit(self) -> Option<Circuit> {
        self.circuit
    }

    /// Loads a circuit.
    pub fn load_circuit(&mut self, circuit: Circuit)
        ensures
            final(self).circuit() == Some(circuit),
    {
        self.circuit = Some(circuit);
    }

    /// The witness for the given inputs: the inputs as the signal values,
    /// with no component assignments and no computation steps; an error if
    /// no circuit is loaded.
    pub fn compute_witness(&mut self, inputs: &StrMap<BigNum>) -> (r: Result<
        WitnessAssignment,
        EmulatorError,
    >)
        ensures
            final(self).circuit() == old(self).circuit(),
            old(self).circuit() is None <==> r is Err,
            r matches Err(e) ==> e is CircuitNotLoaded,
            r matches Ok(a) ==> {
                &&& keys_of(a.signal_values@) == keys_of(inputs@)
                &&& forall|i: int|
                    0 <= i < inputs@.len() ==> (#[trigger] a.signal_values@[i]).1@ == inputs@[i].1@
                &&& a.component_assignments@.len() == 0
                &&& a.computation_log@.len() == 0
            },
    {
        match &self.circuit {
            None => Err(EmulatorError::CircuitNotLoaded),
            Some(_) => {
                let values = copy_values(inputs);
                Ok(
                    WitnessAssignment {
                        signal_values: values,
                        component_assignments: StrMap::new(),
                        computation_log: Vec::new(),
                    },
                )
            },
        }
    }

    /// `count` random input sets, each with the ten inputs `input_0` to
    /// `input_9` holding values drawn from 32 random bytes.
    pub fn generate_random_inputs(&mut self, count: usize) -> (r: Vec<StrMap<BigNum>>)
        ensures
            r@.len() == count,
            forall|k: int| 0 <= k < count ==> is_random_input_set(#[trigger] r@[k]@),
            final(self).circuit() == old(self).circuit(),
    {
        let mut out: Vec<StrMap<BigNum>> = Vec::new();
        let mut n: usize = 0;
        while n < count
            invariant
                n <= count,
                out@.len() == n,
                forall|k: int| 0 <= k < n ==> is_random_input_set(#[trigger] out@[k]@),
                self.circuit() == old(self).circuit(),
            decreases count - n,
        {
            let mut inputs: StrMap<BigNum> = StrMap::new();
            let mut i: u64 = 0;
            while i < 10
                invariant
                    i <= 10,
                    keys_of(inputs@) == random_input_names().take(i as int),
                    forall|j: int| 0 <= j < inputs@.len() ==> 0 <= (#[trigger] inputs@[j]).1@ < pow256_32(),
                    crate::strmap::distinct_keys(inputs@),
                    self.circuit() == old(self).circuit(),
                decreases 10 - i,
            {
                let bytes = random_bytes32(&mut self.rng);
                let value = BigNum::from_le_bytes(bytes.as_slice());
                proof {
                    lemma_mag_value_bound(bytes@);
                }
                let mut name = String::new();
                push_str(&mut name, "input_");
                push_decimal(&mut name, i);
                proof {
                    assert(name@ == input_name(i as nat));
                    lemma_input_names_distinct(i as nat);
                    assert(keys_of(inputs@).len() == inputs@.len());
                    assert(inputs@.len() == i);
                    assert(!crate::strmap::has_key(inputs@, name@)) by {
                        if crate::strmap::has_key(inputs@, name@) {
                            let p = crate::strmap::key_index(inputs@, name@);
                            assert(0 <= p < i);
                            assert(keys_of(inputs@)[p] == inputs@[p].0);
                            assert(random_input_names().take(i as int)[p] == random_input_names()[p]);
                            assert(random_input_names()[p] == input_name(p as nat));
                        }
                    }
                }
                let ghost before = inputs@;
                inputs.insert(name, value);
                proof {
                    assert(inputs@ == before.push((input_name(i as nat), value)));
                    assert(keys_of(inputs@) =~= keys_of(before).push(input_name(i as nat)));
                    assert(random_input_names()[i as int] == input_name(i as nat));
                    assert(random_input_names().take(i + 1) =~= random_input_names().take(
                        i as int,
                    ).push(input_name(i as nat)));
                }
                i += 1;
            }
            assert(random_input_names().take(10) =~= random_input_names());
            out.push(inputs);
            n += 1;
        }
        out
    }

    /// The execution trace of an assignment: its signal values, and for
    /// each component its signal assignments; no steps.
    pub fn assignment_to_trace(&self, assignment: &WitnessAssignment) -> (t: ExecutionTrace)
        ensures
            keys_of(t.signal_values@) == keys_of(assignment.signal_values@),
            forall|i: int|
                0 <= i < t.signal_values@.len() ==> (#[trigger] t.signal_values@[i]).1@
                    == assignment.signal_values@[i].1@,
            keys_of(t.component_outputs@) == keys_of(assignment.component_assignments@),
            forall|i: int|
                0 <= i < t.component_outputs@.len() ==> keys_of((#[trigger] t.component_outputs@[i]).1@)
                    == keys_of(assignment.component_assignments@[i].1.signal_assignments@),
            t.execution_steps@.len() == 0,
    {
        let signal_values = copy_values(&assignment.signal_values);
        let mut outputs: StrMap<StrMap<BigNum>> = StrMap::new();
        let mut i: usize = 0;
        let n = assignment.component_assignments.len();
        while i < n
            invariant
                i <= n,
                n == assignment.component_assignments@.len(),
                crate::strmap::distinct_keys(assignment.component_assignments@),
                keys_of(outputs@) == keys_of(assignment.component_assignments@).take(i as int),
                forall|j: int|
                    0 <= j < outputs@.len() ==> keys_of((#[trigger] outputs@[j]).1@) == keys_of(
                        assignment.component_assignments@[j].1.signal_assignments@,
                    ),
            decreases n - i,
        {
            let k = assignment.component_assignments.key_at(i).clone();
            let a = assignment.component_assignments.value_at(i);
            let v = copy_values(&a.signal_assignments);
            proof {
                let ca = assignment.component_assignments@;
                assert(keys_of(outputs@).len() == outputs@.len());
                assert(outputs@.len() == i);
                assert(!crate::strmap::has_key(outputs@, k@)) by {
                    if crate::strmap::has_key(outputs@, k@) {
                        let p = crate::strmap::key_index(outputs@, k@);
                        assert(0 <= p < i);
                        assert(keys_of(outputs@)[p] == outputs@[p].0);
                        assert(keys_of(ca).take(i as int)[p] == keys_of(ca)[p]);
                        assert(keys_of(ca)[p] == ca[p].0);
                        assert(ca[p].0 == ca[i as int].0);
                    }
                }
            }
            let ghost before = outputs@;
            outputs.insert(k, v);
            proof {
                let ca = assignment.component_assignments@;
                assert(outputs@ == before.push((k@, v)));
                assert(keys_of(outputs@) =~= keys_of(before).push(k@));
                assert(keys_of(ca)[i as int] == k@);
                assert(keys_of(ca).take(i + 1) =~= keys_of(ca).take(i as int).push(k@));
            }
            i += 1;
        }
        assert(keys_of(assignment.component_assignments@).take(n as int) =~= keys_of(
            assignment.component_assignments@,
        ));
        ExecutionTrace { signal_values, component_outputs: outputs, execution_steps: Vec::new() }
    }
}

/// A copy of a table of values, same keys in the same order, same values.
pub fn copy_values(m: &StrMap<BigNum>) -> (r: StrMap<BigNum>)
    ensures
        keys_of(r@) == keys_of(m@),
        r@.len() == m@.len(),
        forall|i: int| 0 <= i < m@.len() ==> (#[trigger] r@[i]).1@ == m@[i].1@,
{
    let mut out: StrMap<BigNum> = StrMap::new();
    let n = m.len();
    let mut i: usize = 0;
    while i < n
        invariant
            i <= n,
            n == m@.len(),
            crate::strmap::distinct_keys(m@),
            out@.len() == i,
            forall|j: int| 0 <= j < i ==> (#[trigger] out@[j]).0 == m@[j].0 && out@[j].1@ == m@[j].1@,
        decreases n - i,
    {
        let k = m.key_at(i).clone();
        let v = m.value_at(i).clone();
        proof {
            assert(!crate::strmap::has_key(out@, k@)) by {
                if crate::strmap::has_key(out@, k@) {
                    let p = crate::strmap::key_index(out@, k@);
                    assert(m@[p].0 == m@[i as int].0);
                }
            }
        }
        let ghost before = out@;
        out.insert(k, v);
        assert(out@ == before.push((m@[i as int].0, v)));
        i += 1;
    }
    assert(keys_of(out@) =~= keys_of(m@));
    out
}

/// Input names differ for different numbers, and no earlier name equals the next.
pub proof fn lemma_input_names_distinct(i: nat)
    ensures
        forall|j: nat| j < i ==> input_name(j) != input_name(i),
{
    reveal_strlit("input_");
    assert forall|j: nat| j < i implies input_name(j) != input_name(i) by {
        crate::text::lemma_decimal_injective(j, i);
        if input_name(j) == input_name(i) {
            assert(input_name(j).skip(6) =~= decimal(j));
            assert(input_name(i).skip(6) =~= decimal(i));
        }
    }
}

/// A 32-byte magnitude is below 2^256.
pub proof fn lemma_mag_value_bound(bytes: Seq<u8>)
    requires
        bytes.len() == 32,
    ensures
        mag_value(bytes) < pow256_32(),
{
    crate::bignum::lemma_mag_value_below(bytes);
}

impl Default for WitnessEmulator {
    fn default() -> (e: Self)
        ensures
            e.circuit() is None,
    {
        WitnessEmulator::new()
    }
}

} // verus!
