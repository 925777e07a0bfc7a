//! Extraction of a rank-one constraint system from a circuit: signals become
//! wires, inputs are split by their `public` tag, and the system is judged
//! by its ratio of constraints to wires.
use crate::r1cs::parser::{CircomCircuit, Constraint, Expression, SignalDefinition, SignalDirection};
use crate::strmap::{insert_entry, StrMap};
use crate::strmap::str_eq;
use crate::text::push_str;
use vstd::prelude::*;

verus! {

/// A constraint system extracted from a circuit.
#[derive(Debug, Clone)]
pub struct ConstraintSystem {
    pub num_wires: usize,
    pub num_constraints: usize,
    pub public_inputs: Vec<String>,
    pub private_inputs: Vec<String>,
    pub constraints: Vec<Constraint>,
    pub signal_map: StrMap<usize>,
}

/// How a constraint system is judged.
#[derive(Debug, Clone, Copy, PartialEq, Eq, Structural)]
pub enum ConstraintAnalysis {
    WellConstrained,
    UnderConstrained,
    OverConstrained,
    Inconsistent,
}

/// Why extraction or analysis failed.
#[derive(Debug, Clone)]
pub enum ConstraintError {
    ParseError(String),
    MissingSignal(String),
    InvalidConstraint(String),
    CircularDependency(String),
}

impl ConstraintError {
    /// The error as text.
    pub fn message(&self) -> (r: String)
        ensures
            r@ == match self {
                ConstraintError::ParseError(m) => "Parse error: "@ + m@,
                ConstraintError::MissingSignal(m) => "Missing signal: "@ + m@,
                ConstraintError::InvalidConstraint(m) => "Invalid constraint: "@ + m@,
                ConstraintError::CircularDependency(m) => "Circular dependency: "@ + m@,
            },
    {
        let mut r = String::new();
        match self {
            ConstraintError::ParseError(m) => {
                push_str(&mut r, "Parse error: ");
                push_str(&mut r, m.as_str());
            },
            ConstraintError::MissingSignal(m) => {
                push_str(&mut r, "Missing signal: ");
                push_str(&mut r, m.as_str());
            },
            ConstraintError::InvalidConstraint(m) => {
                push_str(&mut r, "Invalid constraint: ");
                push_str(&mut r, m.as_str());
            },
            ConstraintError::CircularDependency(m) => {
                push_str(&mut r, "Circular dependency: ");
                push_str(&mut r, m.as_str());
            },
        }
        assert(r@ =~= match self {
            ConstraintError::ParseError(m) => "Parse error: "@ + m@,
            ConstraintError::MissingSignal(m) => "Missing signal: "@ + m@,
            ConstraintError::InvalidConstraint(m) => "Invalid constraint: "@ + m@,
            ConstraintError::CircularDependency(m) => "Circular dependency: "@ + m@,
        });
        r
    }
}

/// The wire of each signal name: signals are numbered in order, and a name
/// defined twice keeps its first place but takes the later number.
pub open spec fn wire_map(sigs: Seq<SignalDefinition>) -> Seq<(Seq<char>, usize)>
    decreases sigs.len(),
{
    if sigs.len() == 0 {
        seq![]
    } else {
        insert_entry(wire_map(sigs.drop_last()), sigs.last().name@, (sigs.len() - 1) as usize)
    }
}

/// Whether a signal is tagged `public`.
pub open spec fn is_public(s: SignalDefinition) -> bool {
    exists|i: int| 0 <= i < s.tags@.len() && (#[trigger] s.tags@[i])@ == "public"@
}

/// The names of the input signals tagged `public` (`public == true`) or
/// not (`public == false`), in order.
pub open spec fn input_names(sigs: Seq<SignalDefinition>, public: bool) -> Seq<Seq<char>>
    decreases sigs.len(),
{
    if sigs.len() == 0 {
        seq![]
    } else {
        let r = input_names(sigs.drop_last(), public);
        let s = sigs.last();
        if s.direction == SignalDirection::Input && is_public(s) == public {
            r.push(s.name@)
        } else {
            r
        }
    }
}

/// Whether an expression mentions the signal `name`.
pub open spec fn contains_signal(e: Expression, name: Seq<char>) -> bool
    decreases e,
{
    match e {
        Expression::Signal(n) => n@ == name,
        Expression::Number(_) => false,
        Expression::Addition(l, r) => contains_signal(*l, name) || contains_signal(*r, name),
        Expression::Subtraction(l, r) => contains_signal(*l, name) || contains_signal(*r, name),
        Expression::Multiplication(l, r) => contains_signal(*l, name) || contains_signal(*r, name),
        Expression::SubtractionResult(l, r) => contains_signal(*l, name) || contains_signal(
            *r,
            name,
        ),
    }
}

/// Whether a constraint involves the signal `name`: either side mentions
/// it, or it is the constraint's output.
pub open spec fn constrains(c: Constraint, name: Seq<char>) -> bool {
    contains_signal(c.left, name) || contains_signal(c.right, name) || (c.output matches Some(
        o,
    ) && o@ == name)
}

/// The judgement of a system with `c` constraints over `w` wires: under
/// constrained below a ratio of 0.8, over constrained above 1.2.
pub open spec fn judge(c: nat, w: nat) -> ConstraintAnalysis {
    if 5 * c < 4 * w {
        ConstraintAnalysis::UnderConstrained
    } else if 5 * c > 6 * w {
        ConstraintAnalysis::OverConstrained
    } else {
        ConstraintAnalysis::WellConstrained
    }
}

/// A signal mentions exactly its own name, a number none; a sum,
/// difference or product mentions what either operand mentions.
pub proof fn lemma_contains_signal_rules(
    n: String,
    x: crate::bignum::BigNum,
    l: Expression,
    r: Expression,
    name: Seq<char>,
)
    ensures
        contains_signal(Expression::Signal(n), name) <==> n@ == name,
        !contains_signal(Expression::Number(x), name),
        contains_signal(Expression::Addition(Box::new(l), Box::new(r)), name) <==> contains_signal(l, name)
            || contains_signal(r, name),
        contains_signal(Expression::Multiplication(Box::new(l), Box::new(r)), name) <==> contains_signal(
            l,
            name,
        ) || contains_signal(r, name),
        contains_signal(Expression::Subtraction(Box::new(l), Box::new(r)), name) <==> contains_signal(
            l,
            name,
        ) || contains_signal(r, name),
{
}

/// A system with as many constraints as wires is well constrained; one
/// with no constraints over some wires is under constrained; one with
/// twice as many constraints as wires, and some wires, is over constrained.
pub proof fn lemma_judge_ratios(w: nat)
    ensures
        judge(w, w) == ConstraintAnalysis::WellConstrained,
        w > 0 ==> judge(0, w) == ConstraintAnalysis::UnderConstrained,
        w > 0 ==> judge(2 * w, w) == ConstraintAnalysis::OverConstrained,
{
}

/// Extracts constraint systems; it keeps the last circuit and system.
#[derive(Debug)]
pub struct ConstraintExtractor {
    circuit: Option<CircomCircuit>,
    constraint_system: Option<ConstraintSystem>,
}

impl ConstraintExtractor {
    /// The last extracted system, if any.
    pub closed spec fn system(self) -> Option<ConstraintSystem> {
        self.constraint_system
    }

    /// An extractor that has extracted nothing.
    pub fn new() -> (e: Self)
        ensures
            e.system() is None,
    {
        ConstraintExtractor { circuit: None, constraint_system: None }
    }

    /// Extracts the constraint system of a circuit: one wire per signal,
    /// the wire map of `wire_map`, the input names split by their `public`
    /// tag, and the circuit's constraints. It keeps the circuit and the system.
    pub fn extract(&mut self, circuit: CircomCircuit) -> (r: Result<
        &ConstraintSystem,
        ConstraintError,
    >)
        ensures
            r matches Ok(cs) && final(self).system() == Some(*cs) && cs.num_wires
                == circuit.signals@.len() && cs.num_constraints == circuit.constraints@.len()
                && cs.signal_map@ == wire_map(circuit.signals@) && cs.public_inputs@.map_values(
                |s: String| s@,
            ) == input_names(circuit.signals@, true) && cs.private_inputs@.map_values(
                |s: String| s@,
            ) == input_names(circuit.signals@, false) && cs.constraints@.len()
                == circuit.constraints@.len() && forall|i: int|
                0 <= i < cs.constraints@.len() ==> cloned(
                    circuit.constraints@[i],
                    #[trigger] cs.constraints@[i],
                ),
    {
        let ghost sigs = circuit.signals@;
        let mut signal_map: StrMap<usize> = StrMap::new();
        let mut wire_counter: usize = 0;
        assert(sigs.take(0) =~= Seq::<SignalDefinition>::empty());
        while wire_counter < circuit.signals.len()
            invariant
                wire_counter <= circuit.signals.len(),
                sigs == circuit.signals@,
                signal_map@ == wire_map(sigs.take(wire_counter as int)),
            decreases circuit.signals.len() - wire_counter,
        {
            proof {
                assert(sigs.take(wire_counter + 1).drop_last() =~= sigs.take(wire_counter as int));
            }
            signal_map.insert(circuit.signals[wire_counter].name.clone(), wire_counter);
            wire_counter += 1;
        }
        assert(sigs.take(wire_counter as int) =~= sigs);
        let mut public_inputs: Vec<String> = Vec::new();
        let mut private_inputs: Vec<String> = Vec::new();
        let mut i: usize = 0;
        assert(public_inputs@.map_values(|s: String| s@) =~= Seq::<Seq<char>>::empty());
        assert(private_inputs@.map_values(|s: String| s@) =~= Seq::<Seq<char>>::empty());
        while i < circuit.signals.len()
            invariant
                i <= circuit.signals.len(),
                sigs == circuit.signals@,
                public_inputs@.map_values(|s: String| s@) == input_names(sigs.take(i as int), true),
                private_inputs@.map_values(|s: String| s@) == input_names(sigs.take(i as int), false),
            decreases circuit.signals.len() - i,
        {
            proof {
                assert(sigs.take(i + 1).drop_last() =~= sigs.take(i as int));
                assert(sigs.take(i + 1).last() == sigs[i as int]);
            }
            let signal = &circuit.signals[i];
            match signal.direction {
                SignalDirection::Input => {
                    let public = has_public_tag(signal);
                    let ghost pv = public_inputs@;
                    let ghost qv = private_inputs@;
                    if public {
                        public_inputs.push(signal.name.clone());
                        assert(public_inputs@.map_values(|s: String| s@) =~= pv.map_values(
                            |s: String| s@,
                        ).push(signal.name@));
                    } else {
                        private_inputs.push(signal.name.clone());
                        assert(private_inputs@.map_values(|s: String| s@) =~= qv.map_values(
                            |s: String| s@,
                        ).push(signal.name@));
                    }
                },
                _ => {},
            }
            i += 1;
        }
        assert(sigs.take(i as int) =~= sigs);
        let cs = ConstraintSystem {
            num_wires: wire_counter,
            num_constraints: circuit.constraints.len(),
            public_inputs,
            private_inputs,
            constraints: circuit.constraints.clone(),
            signal_map,
        };
        self.circuit = Some(circuit);
        self.constraint_system = Some(cs);
        match &self.constraint_system {
            Some(c) => Ok(c),
            None => Err(ConstraintError::ParseError(String::new())),
        }
    }

    /// Judges the last extracted system by `judge` on its constraint and
    /// wire counts; an error if nothing was extracted.
    pub fn analyze(&self) -> (r: Result<ConstraintAnalysis, ConstraintError>)
        ensures
            match self.system() {
                Some(cs) => r == Ok::<ConstraintAnalysis, ConstraintError>(
                    judge(cs.num_constraints as nat, cs.num_wires as nat),
                ),
                None => r matches Err(ConstraintError::ParseError(m)) && m@
                    == "No constraint system available"@,
            },
    {
        match &self.constraint_system {
            None => Err(ConstraintError::ParseError(crate::text::owned("No constraint system available"))),
            Some(cs) => {
                let c: u128 = cs.num_constraints as u128;
                let w: u128 = cs.num_wires as u128;
                if 5 * c < 4 * w {
                    Ok(ConstraintAnalysis::UnderConstrained)
                } else if 5 * c > 6 * w {
                    Ok(ConstraintAnalysis::OverConstrained)
                } else {
                    Ok(ConstraintAnalysis::WellConstrained)
                }
            },
        }
    }

    /// The last extracted system.
    pub fn get_constraint_system(&self) -> (r: Option<&ConstraintSystem>)
        ensures
            match self.system() {
                Some(cs) => r == Some(&cs),
                None => r is None,
            },
    {
        match &self.constraint_system {
            Some(c) => Some(c),
            None => None,
        }
    }

    /// Whether some constraint of the last extracted system involves the
    /// signal (see `constrains`); false if nothing was extracted.
    pub fn is_signal_constrained(&self, signal_name: &str) -> (b: bool)
        ensures
            self.system() is None ==> !b,
            self.system() matches Some(cs) ==> (b <==> exists|i: int|
                0 <= i < cs.constraints@.len() && constrains(
                    #[trigger] cs.constraints@[i],
                    signal_name@,
                )),
    {
        match &self.constraint_system {
            None => false,
            Some(cs) => {
                let mut i: usize = 0;
                while i < cs.constraints.len()
                    invariant
                        i <= cs.constraints.len(),
                        self.system() == Some(*cs),
                        forall|j: int|
                            0 <= j < i ==> !constrains(#[trigger] cs.constraints@[j], signal_name@),
                    decreases cs.constraints.len() - i,
                {
                    let c = &cs.constraints[i];
                    let out = match &c.output {
                        Some(o) => str_eq(o.as_str(), signal_name),
                        None => false,
                    };
                    if self.expression_contains_signal(&c.left, signal_name)
                        || self.expression_contains_signal(&c.right, signal_name) || out {
                        assert(constrains(cs.constraints@[i as int], signal_name@));
                        assert(exists|k: int|
                            0 <= k < cs.constraints@.len() && constrains(
                                #[trigger] cs.constraints@[k],
                                signal_name@,
                            ));
                        assert(self.system() == Some(*cs));
                        assert(self.system()->0 == *cs);
                        return true;
                    }
                    i += 1;
                }
                false
            },
        }
    }

    /// Whether an expression mentions the signal.
    pub fn expression_contains_signal(&self, expr: &Expression, signal: &str) -> (b: bool)
        ensures
            b == contains_signal(*expr, signal@),
        decreases expr,
    {
        match expr {
            Expression::Signal(name) => str_eq(name.as_str(), signal),
            Expression::Number(_) => false,
            Expression::Addition(l, r) => self.expression_contains_signal(l, signal)
                || self.expression_contains_signal(r, signal),
            Expression::Subtraction(l, r) => self.expression_contains_signal(l, signal)
                || self.expression_contains_signal(r, signal),
            Expression::Multiplication(l, r) => self.expression_contains_signal(l, signal)
                || self.expression_contains_signal(r, signal),
            Expression::SubtractionResult(l, r) => self.expression_contains_signal(l, signal)
                || self.expression_contains_signal(r, signal),
        }
    }
}

/// Whether a signal carries the tag `public`.
fn has_public_tag(s: &SignalDefinition) -> (b: bool)
    ensures
        b == is_public(*s),
{
    let mut i: usize = 0;
    while i < s.tags.len()
        invariant
            i <= s.tags.len(),
            forall|j: int| 0 <= j < i ==> (#[trigger] s.tags@[j])@ != "public"@,
        decreases s.tags.len() - i,
    {
        if str_eq(s.tags[i].as_str(), "public") {
            return true;
        }
        i += 1;
    }
    false
}

impl Default for ConstraintExtractor {
    fn default() -> (e: Self)
        ensures
            e.system() is None,
    {
        ConstraintExtractor::new()
    }
}

} // verus!
