//! Witnesses and their checking against a constraint system: expressions
//! are evaluated over the integers from the witness's signal values.
use crate::bignum::{all_decimal_digits, decimal_digits_value, BigNum};
use crate::r1cs::constraints::ConstraintSystem;
use crate::r1cs::parser::{CircomCircuit, Constraint, Expression};
use crate::strmap::{has_key, value_for, insert_entry, StrMap};
use crate::text::{owned, push_str};
use vstd::prelude::*;

verus! {

/// Values computed for a circuit's signals.
#[derive(Debug, Clone)]
pub struct Witness {
    pub values: StrMap<BigNum>,
    pub valid: bool,
    pub error: Option<String>,
}

impl Witness {
    /// An empty, valid witness.
    pub fn new() -> (w: Self)
        ensures
            w.values@.len() == 0,
            w.valid,
            w.error is None,
    {
        Witness { values: StrMap::new(), valid: true, error: None }
    }

    /// A valid witness with the given values.
    pub fn with_values(values: StrMap<BigNum>) -> (w: Self)
        ensures
            w.values == values,
            w.valid,
            w.error is None,
    {
        Witness { values, valid: true, error: None }
    }

    /// The value of a signal.
    pub fn get(&self, signal: &str) -> (r: Option<&BigNum>)
        ensures
            r is Some == has_key(self.values@, signal@),
            r matches Some(v) ==> *v == value_for(self.values@, signal@),
    {
        self.values.get(signal)
    }

    /// Sets the value of a signal.
    pub fn set(&mut self, signal: String, value: BigNum)
        ensures
            final(self).values@ == insert_entry(old(self).values@, signal@, value),
            final(self).valid == old(self).valid,
            final(self).error == old(self).error,
    {
        self.values.insert(signal, value);
    }

    /// Marks the witness invalid, with a reason.
    pub fn invalidate(&mut self, error: String)
        ensures
            final(self).values == old(self).values,
            !final(self).valid,
            final(self).error == Some(error),
    {
        self.valid = false;
        self.error = Some(error);
    }
}

impl Default for Witness {
    fn default() -> (w: Self)
        ensures
            w.values@.len() == 0,
            w.valid,
            w.error is None,
    {
        Witness::new()
    }
}

/// Why emulation failed.
#[derive(Debug, Clone)]
pub enum EmulatorError {
    MissingInput(String),
    DivisionByZero,
    ConstraintViolation(String),
    SignalNotFound(String),
    Overflow,
}

impl EmulatorError {
    /// The error as text.
    pub fn message(&self) -> (r: String)
        ensures
            r@ == match self {
                EmulatorError::MissingInput(m) => "Missing input: "@ + m@,
                EmulatorError::DivisionByZero => "Division by zero"@,
                EmulatorError::ConstraintViolation(m) => "Constraint violation: "@ + m@,
                EmulatorError::SignalNotFound(m) => "Signal not found: "@ + m@,
                EmulatorError::Overflow => "Arithmetic overflow"@,
            },
    {
        let mut r = String::new();
        match self {
            EmulatorError::MissingInput(m) => {
                push_str(&mut r, "Missing input: ");
                push_str(&mut r, m.as_str());
            },
            EmulatorError::DivisionByZero => push_str(&mut r, "Division by zero"),
            EmulatorError::ConstraintViolation(m) => {
                push_str(&mut r, "Constraint violation: ");
                push_str(&mut r, m.as_str());
            },
            EmulatorError::SignalNotFound(m) => {
                push_str(&mut r, "Signal not found: ");
                push_str(&mut r, m.as_str());
            },
            EmulatorError::Overflow => push_str(&mut r, "Arithmetic overflow"),
        }
        assert(r@ =~= match self {
            EmulatorError::MissingInput(m) => "Missing input: "@ + m@,
            EmulatorError::DivisionByZero => "Division by zero"@,
            EmulatorError::ConstraintViolation(m) => "Constraint violation: "@ + m@,
            EmulatorError::SignalNotFound(m) => "Signal not found: "@ + m@,
            EmulatorError::Overflow => "Arithmetic overflow"@,
        });
        r
    }
}

/// Configuration of the emulator.
#[derive(Debug, Clone)]
pub struct EmulatorConfig {
    pub field_modulus: Option<BigNum>,
    pub max_iterations: usize,
    pub verbose: bool,
}

/// The prime of the BN254 scalar field.
pub open spec fn bn254_prime() -> int {
    21888242871839275222246405745257275088548364400416034343698204186575808495617int
}

/// Whether the first `n` bytes are ASCII digits.
pub open spec fn digits_upto(s: Seq<u8>, n: nat) -> bool
    decreases n,
{
    n == 0 || (48 <= s[n - 1] <= 57 && digits_upto(s, (n - 1) as nat))
}

/// The decimal value of the first `n` bytes.
pub open spec fn value_upto(s: Seq<u8>, n: nat) -> int
    decreases n,
{
    if n == 0 {
        0
    } else {
        value_upto(s, (n - 1) as nat) * 10 + (s[n - 1] - 48)
    }
}

proof fn lemma_digits_upto(s: Seq<u8>, n: nat)
    requires
        n <= s.len(),
        digits_upto(s, n),
    ensures
        all_decimal_digits(s.take(n as int)),
        decimal_digits_value(s.take(n as int)) == value_upto(s, n),
    decreases n,
{
    if n > 0 {
        lemma_digits_upto(s, (n - 1) as nat);
        let t = s.take(n as int);
        assert(t.drop_last() =~= s.take(n - 1));
        assert forall|i: int| 0 <= i < t.len() implies 48 <= #[trigger] t[i] <= 57 by {
            if i < n - 1 {
                assert(s.take(n - 1)[i] == t[i]);
            }
        }
    }
}

impl Default for EmulatorConfig {
    fn default() -> (c: Self)
        ensures
            c.field_modulus matches Some(p) && p@ == bn254_prime(),
            c.max_iterations == 10000,
            !c.verbose,
    {
        let digits: Vec<u8> = vec![
            50u8, 49, 56, 56, 56, 50, 52, 50, 56, 55, 49, 56, 51, 57, 50, 55, 53, 50, 50, 50, 50,
            52, 54, 52, 48, 53, 55, 52, 53, 50, 53, 55, 50, 55, 53, 48, 56, 56, 53, 52, 56, 51,
            54, 52, 52, 48, 48, 52, 49, 54, 48, 51, 52, 51, 52, 51, 54, 57, 56, 50, 48, 52, 49,
            56, 54, 53, 55, 53, 56, 48, 56, 52, 57, 53, 54, 49, 55,
        ];
        proof {
            let s = digits@;
            assert(s.len() == 77);
            assert(digits_upto(s, 77)) by {
                reveal_with_fuel(digits_upto, 78);
            }
            assert(value_upto(s, 77) == bn254_prime()) by {
                reveal_with_fuel(value_upto, 78);
            }
            lemma_digits_upto(s, 77);
            assert(s.take(77) =~= s);
        }
        let p = BigNum::parse_decimal(digits.as_slice());
        EmulatorConfig { field_modulus: p, max_iterations: 10000, verbose: false }
    }
}

/// The value of an expression over a witness's values, or the first
/// missing signal in evaluation order (left operand first).
pub open spec fn eval(e: Expression, w: Seq<(Seq<char>, BigNum)>) -> Result<int, Seq<char>>
    decreases e,
{
    match e {
        Expression::Signal(n) => if has_key(w, n@) {
            Ok(value_for(w, n@)@)
        } else {
            Err(n@)
        },
        Expression::Number(n) => Ok(n@),
        Expression::Addition(l, r) => match (eval(*l, w), eval(*r, w)) {
            (Err(m), _) => Err(m),
            (Ok(_), Err(m)) => Err(m),
            (Ok(a), Ok(b)) => Ok(a + b),
        },
        Expression::Subtraction(l, r) => match (eval(*l, w), eval(*r, w)) {
            (Err(m), _) => Err(m),
            (Ok(_), Err(m)) => Err(m),
            (Ok(a), Ok(b)) => Ok(a - b),
        },
        Expression::Multiplication(l, r) => match (eval(*l, w), eval(*r, w)) {
            (Err(m), _) => Err(m),
            (Ok(_), Err(m)) => Err(m),
            (Ok(a), Ok(b)) => Ok(a * b),
        },
        Expression::SubtractionResult(l, r) => match (eval(*l, w), eval(*r, w)) {
            (Err(m), _) => Err(m),
            (Ok(_), Err(m)) => Err(m),
            (Ok(a), Ok(b)) => Ok(a - b),
        },
    }
}

/// Whether a witness satisfies a constraint, or the missing signal: both
/// sides are evaluated; with an output signal the constraint holds when the
/// output has a value, else the two sides must be equal.
pub open spec fn check(c: Constraint, w: Seq<(Seq<char>, BigNum)>) -> Result<bool, Seq<char>> {
    match (eval(c.left, w), eval(c.right, w)) {
        (Err(m), _) => Err(m),
        (Ok(_), Err(m)) => Err(m),
        (Ok(a), Ok(b)) => match c.output {
            Some(o) => if has_key(w, o@) {
                Ok(true)
            } else {
                Err(o@)
            },
            None => Ok(a == b),
        },
    }
}

/// Checking constraints in order: the first error or failure decides.
pub open spec fn check_all(cs: Seq<Constraint>, w: Seq<(Seq<char>, BigNum)>) -> Result<
    bool,
    Seq<char>,
>
    decreases cs.len(),
{
    if cs.len() == 0 {
        Ok(true)
    } else {
        match check(cs[0], w) {
            Err(m) => Err(m),
            Ok(false) => Ok(false),
            Ok(true) => check_all(cs.drop_first(), w),
        }
    }
}

/// Over a witness, a signal is worth the value the witness gives it, and a
/// sum, difference or product is worth the sum, difference or product of
/// its operands' values, wherever both operands have one.
pub proof fn lemma_eval_arithmetic(
    l: Expression,
    r: Expression,
    w: Seq<(Seq<char>, BigNum)>,
    a: int,
    b: int,
)
    requires
        eval(l, w) == Ok::<int, Seq<char>>(a),
        eval(r, w) == Ok::<int, Seq<char>>(b),
    ensures
        eval(Expression::Multiplication(Box::new(l), Box::new(r)), w) == Ok::<int, Seq<char>>(a * b),
        eval(Expression::Addition(Box::new(l), Box::new(r)), w) == Ok::<int, Seq<char>>(a + b),
        eval(Expression::Subtraction(Box::new(l), Box::new(r)), w) == Ok::<int, Seq<char>>(a - b),
        eval(Expression::SubtractionResult(Box::new(l), Box::new(r)), w) == Ok::<int, Seq<char>>(
            a - b,
        ),
{
}

/// A signal the witness holds is worth its value there; a number is worth
/// itself.
pub proof fn lemma_eval_leaves(n: String, x: BigNum, w: Seq<(Seq<char>, BigNum)>)
    ensures
        has_key(w, n@) ==> eval(Expression::Signal(n), w) == Ok::<int, Seq<char>>(value_for(w, n@)@),
        !has_key(w, n@) ==> eval(Expression::Signal(n), w) == Err::<int, Seq<char>>(n@),
        eval(Expression::Number(x), w) == Ok::<int, Seq<char>>(x@),
{
}

/// A constraint without an output signal holds exactly when both sides are
/// worth the same; a system of one constraint is satisfied exactly when that
/// constraint holds.
pub proof fn lemma_check_equal_sides(c: Constraint, w: Seq<(Seq<char>, BigNum)>, a: int, b: int)
    requires
        eval(c.left, w) == Ok::<int, Seq<char>>(a),
        eval(c.right, w) == Ok::<int, Seq<char>>(b),
        c.output is None,
    ensures
        check(c, w) == Ok::<bool, Seq<char>>(a == b),
        check_all(seq![c], w) == Ok::<bool, Seq<char>>(a == b),
{
    reveal_with_fuel(check_all, 2);
    assert(seq![c][0] == c);
    assert(seq![c].drop_first() =~= Seq::<Constraint>::empty());
}

/// Computes and checks witnesses.
pub struct WitnessEmulator {
    config: EmulatorConfig,
    circuit: Option<CircomCircuit>,
    constraint_system: Option<ConstraintSystem>,
    witness: Option<Witness>,
}

impl WitnessEmulator {
    /// The constraint system to check against.
    pub closed spec fn system(self) -> Option<ConstraintSystem> {
        self.constraint_system
    }

    /// The last computed witness.
    pub closed spec fn last_witness(self) -> Option<Witness> {
        self.witness
    }

    /// The configuration.
    pub closed spec fn configuration(self) -> EmulatorConfig {
        self.config
    }

    /// The circuit to emulate, if one is set.
    pub closed spec fn loaded_circuit(self) -> Option<CircomCircuit> {
        self.circuit
    }

    /// An emulator with the default configuration and nothing loaded.
    pub fn new() -> (e: Self)
        ensures
            e.system() is None,
            e.last_witness() is None,
            e.configuration().field_modulus matches Some(p) && p@ == bn254_prime(),
            e.configuration().max_iterations == 10000,
    {
        WitnessEmulator {
            config: EmulatorConfig::default(),
            circuit: None,
            constraint_system: None,
            witness: None,
        }
    }

    /// An emulator with the given configuration and nothing loaded.
    pub fn with_config(config: EmulatorConfig) -> (e: Self)
        ensures
            e.system() is None,
            e.last_witness() is None,
            e.configuration() == config,
    {
        WitnessEmulator { config, circuit: None, constraint_system: None, witness: None }
    }

    /// Sets the circuit to emulate.
    pub fn set_circuit(&mut self, circuit: CircomCircuit)
        ensures
            final(self).loaded_circuit() == Some(circuit),
            final(self).system() == old(self).system(),
            final(self).last_witness() == old(self).last_witness(),
            final(self).configuration() == old(self).configuration(),
    {
        self.circuit = Some(circuit);
    }

    /// Sets the constraint system to check against.
    pub fn set_constraint_system(&mut self, cs: ConstraintSystem)
        ensures
            final(self).system() == Some(cs),
            final(self).last_witness() == old(self).last_witness(),
            final(self).configuration() == old(self).configuration(),
    {
        self.constraint_system = Some(cs);
    }

    /// Computes a witness from the inputs: as yet, the inputs themselves,
    /// marked valid. The emulator keeps it.
    pub fn compute_witness(&mut self, inputs: StrMap<BigNum>) -> (r: Result<&Witness, EmulatorError>)
        ensures
            r matches Ok(w) && w.values == inputs && w.valid && w.error is None
                && final(self).last_witness() == Some(*w),
            final(self).system() == old(self).system(),
            final(self).configuration() == old(self).configuration(),
    {
        let mut witness = Witness::with_values(inputs);
        witness.valid = true;
        self.witness = Some(witness);
        match &self.witness {
            Some(w) => Ok(w),
            None => Err(EmulatorError::Overflow),
        }
    }

    /// Whether the witness satisfies every constraint of the system, checked
    /// in order (see `check_all`); a missing signal is an error, and so is a
    /// missing system.
    pub fn verify_witness(&self, witness: &Witness) -> (r: Result<bool, EmulatorError>)
        ensures
            match self.system() {
                None => r matches Err(EmulatorError::ConstraintViolation(m)) && m@
                    == "No constraint system available"@,
                Some(cs) => match check_all(cs.constraints@, witness.values@) {
                    Ok(b) => r == Ok::<bool, EmulatorError>(b),
                    Err(n) => r matches Err(EmulatorError::SignalNotFound(m)) && m@ == n,
                },
            },
    {
        match &self.constraint_system {
            None => Err(
                EmulatorError::ConstraintViolation(owned("No constraint system available")),
            ),
            Some(cs) => {
                let ghost all = cs.constraints@;
                let mut i: usize = 0;
                assert(all.skip(0) =~= all);
                while i < cs.constraints.len()
                    invariant
                        i <= cs.constraints.len(),
                        all == cs.constraints@,
                        self.system() == Some(*cs),
                        check_all(all, witness.values@) == check_all(
                            all.skip(i as int),
                            witness.values@,
                        ),
                    decreases cs.constraints.len() - i,
                {
                    proof {
                        assert(all.skip(i as int).drop_first() =~= all.skip(i + 1));
                        assert(all.skip(i as int)[0] == all[i as int]);
                    }
                    match self.check_constraint(&cs.constraints[i], witness) {
                        Err(e) => {
                            return Err(e);
                        },
                        Ok(false) => {
                            return Ok(false);
                        },
                        Ok(true) => {},
                    }
                    i += 1;
                }
                proof {
                    assert(all.skip(i as int).len() == 0);
                }
                Ok(true)
            },
        }
    }

    /// Checks one constraint (see `check`).
    fn check_constraint(&self, constraint: &Constraint, witness: &Witness) -> (r: Result<
        bool,
        EmulatorError,
    >)
        ensures
            match check(*constraint, witness.values@) {
                Ok(b) => r == Ok::<bool, EmulatorError>(b),
                Err(n) => r matches Err(EmulatorError::SignalNotFound(m)) && m@ == n,
            },
    {
        let left_val = match self.evaluate_expression(&constraint.left, witness) {
            Ok(v) => v,
            Err(e) => {
                return Err(e);
            },
        };
        let right_val = match self.evaluate_expression(&constraint.right, witness) {
            Ok(v) => v,
            Err(e) => {
                return Err(e);
            },
        };
        match &constraint.output {
            Some(output) => {
                if witness.get(output.as_str()).is_some() {
                    Ok(true)
                } else {
                    Err(EmulatorError::SignalNotFound(output.clone()))
                }
            },
            None => Ok(left_val.same_value(&right_val)),
        }
    }

    /// Evaluates an expression over the witness's values (see `eval`).
    fn evaluate_expression(&self, expr: &Expression, witness: &Witness) -> (r: Result<
        BigNum,
        EmulatorError,
    >)
        ensures
            match eval(*expr, witness.values@) {
                Ok(v) => r matches Ok(x) && x@ == v,
                Err(n) => r matches Err(EmulatorError::SignalNotFound(m)) && m@ == n,
            },
        decreases expr,
    {
        match expr {
            Expression::Signal(name) => match witness.get(name.as_str()) {
                Some(v) => Ok(v.clone()),
                None => Err(EmulatorError::SignalNotFound(name.clone())),
            },
            Expression::Number(n) => Ok(n.clone()),
            Expression::Addition(left, right) => {
                let l = self.evaluate_expression(left, witness)?;
                let r = self.evaluate_expression(right, witness)?;
                Ok(l.add(&r))
            },
            Expression::Subtraction(left, right) => {
                let l = self.evaluate_expression(left, witness)?;
                let r = self.evaluate_expression(right, witness)?;
                Ok(l.sub(&r))
            },
            Expression::Multiplication(left, right) => {
                let l = self.evaluate_expression(left, witness)?;
                let r = self.evaluate_expression(right, witness)?;
                Ok(l.mul(&r))
            },
            Expression::SubtractionResult(left, right) => {
                let l = self.evaluate_expression(left, witness)?;
                let r = self.evaluate_expression(right, witness)?;
                Ok(l.sub(&r))
            },
        }
    }

    /// The last computed witness.
    pub fn get_witness(&self) -> (r: Option<&Witness>)
        ensures
            match self.last_witness() {
                Some(w) => r == Some(&w),
                None => r is None,
            },
    {
        match &self.witness {
            Some(w) => Some(w),
            None => None,
        }
    }

    /// The configuration.
    pub fn config(&self) -> (c: &EmulatorConfig)
        ensures
            *c == self.configuration(),
    {
        &self.config
    }
}

impl Default for WitnessEmulator {
    fn default() -> (e: Self)
        ensures
            e.system() is None,
            e.last_witness() is None,
    {
        WitnessEmulator::new()
    }
}

} // verus!
