//! Extraction of the constraint system of a parsed circuit: a table of its
//! signals with the constraints each takes part in, and counts that
//! classify the constraints by degree.
use crate::circuit::parser::{
    BinaryOperator, Circuit, Constraint, Expression, Signal, SignalDirection, SignalType,
};
use crate::strmap::{has_key, insert_entry, key_index, StrMap};
use crate::text::push_str;
use vstd::prelude::*;

verus! {

/// The constraint system of a circuit.
#[derive(Debug, Clone)]
pub struct ConstraintSystem {
    pub constraints: Vec<Constraint>,
    pub signals: StrMap<SignalInfo>,
    pub metadata: ConstraintMetadata,
}

/// A signal of the constraint system.
#[derive(Debug, Clone)]
pub struct SignalInfo {
    pub name: String,
    pub is_input: bool,
    pub is_output: bool,
    pub is_witness: bool,
    pub constraints_involved: Vec<usize>,
    pub domain: SignalDomain,
}

/// The values a signal ranges over.
#[derive(Debug, Clone, PartialEq)]
pub enum SignalDomain {
    Field,
    Binary,
    Range { min: i128, max: i128 },
    Custom(String),
}

/// Counts that describe a constraint system.
#[derive(Debug, Clone, Copy, PartialEq, Eq, Structural)]
pub struct ConstraintMetadata {
    pub total_constraints: usize,
    pub total_signals: usize,
    pub input_signals: usize,
    pub output_signals: usize,
    pub witness_signals: usize,
    pub quadratic_constraints: usize,
    pub linear_constraints: usize,
    pub constant_constraints: usize,
    pub is_under_constrained: Option<bool>,
    pub is_over_constrained: Option<bool>,
}

/// A signal of the table as the contracts see it.
pub struct InfoModel {
    pub name: Seq<char>,
    pub is_input: bool,
    pub is_output: bool,
    pub is_witness: bool,
    pub constraints_involved: Seq<usize>,
    pub domain: SignalDomain,
}

/// The model of a signal table entry.
pub open spec fn info_model(i: SignalInfo) -> InfoModel {
    InfoModel {
        name: i.name@,
        is_input: i.is_input,
        is_output: i.is_output,
        is_witness: i.is_witness,
        constraints_involved: i.constraints_involved@,
        domain: i.domain,
    }
}

/// The model of a signal table.
pub open spec fn table_model(t: Seq<(Seq<char>, SignalInfo)>) -> Seq<(Seq<char>, InfoModel)> {
    t.map_values(|e: (Seq<char>, SignalInfo)| (e.0, info_model(e.1)))
}

/// The larger of two integers.
pub open spec fn max_int(a: int, b: int) -> int {
    if a >= b {
        a
    } else {
        b
    }
}

/// The polynomial degree of an expression: constants 0, signals and
/// component outputs 1; products add degrees, powers multiply them, other
/// operators and calls take the largest degree of their operands.
pub open spec fn degree(e: Expression) -> int
    decreases e,
{
    match e {
        Expression::Constant(_) => 0,
        Expression::Signal(_) => 1,
        Expression::BinaryOp(l, op, r) => match op {
            BinaryOperator::Mul => degree(*l) + degree(*r),
            BinaryOperator::Pow => degree(*l) * degree(*r),
            _ => max_int(degree(*l), degree(*r)),
        },
        Expression::UnaryOp(_, inner) => degree(*inner),
        Expression::FunctionCall(_, args) => {
            proof {
                vstd::std_specs::vec::axiom_vec_decreases_to_view(args);
            }
            args_degree(args@)
        },
        Expression::ComponentOutput(_, _) => 1,
    }
}

/// The largest degree among call arguments (0 for none).
pub open spec fn args_degree(s: Seq<Expression>) -> int
    decreases s,
{
    if s.len() == 0 {
        0
    } else {
        max_int(args_degree(s.drop_last()), degree(s.last()))
    }
}

/// Whether the degree of every subexpression fits in a `usize`.
pub open spec fn degree_fits(e: Expression) -> bool
    decreases e,
{
    &&& degree(e) <= usize::MAX
    &&& match e {
        Expression::BinaryOp(l, _, r) => degree_fits(*l) && degree_fits(*r),
        Expression::UnaryOp(_, inner) => degree_fits(*inner),
        Expression::FunctionCall(_, args) => {
            proof {
                vstd::std_specs::vec::axiom_vec_decreases_to_view(args);
            }
            args_fit(args@)
        },
        _ => true,
    }
}

/// Whether every call argument's degrees fit in a `usize`.
pub open spec fn args_fit(s: Seq<Expression>) -> bool
    decreases s,
{
    s.len() == 0 || (args_fit(s.drop_last()) && degree_fits(s.last()))
}

/// The signal names an expression mentions, with repetitions, left to
/// right; a component output `c.s` is named `c.s`.
pub open spec fn names(e: Expression) -> Seq<Seq<char>>
    decreases e,
{
    match e {
        Expression::Signal(n) => seq![n@],
        Expression::BinaryOp(l, _, r) => names(*l) + names(*r),
        Expression::UnaryOp(_, inner) => names(*inner),
        Expression::FunctionCall(_, args) => {
            proof {
                vstd::std_specs::vec::axiom_vec_decreases_to_view(args);
            }
            args_names(args@)
        },
        Expression::ComponentOutput(c, s) => seq![c@ + "."@ + s@],
        Expression::Constant(_) => seq![],
    }
}

/// The names the call arguments mention, in order.
pub open spec fn args_names(s: Seq<Expression>) -> Seq<Seq<char>>
    decreases s,
{
    if s.len() == 0 {
        seq![]
    } else {
        args_names(s.drop_last()) + names(s.last())
    }
}

/// The table entry a signal definition makes.
pub open spec fn signal_model(s: Signal) -> InfoModel {
    InfoModel {
        name: s.name@,
        is_input: s.direction == SignalDirection::Input,
        is_output: s.direction == SignalDirection::Output,
        is_witness: s.direction == SignalDirection::Intermediate,
        constraints_involved: seq![],
        domain: match s.signal_type {
            SignalType::Field => SignalDomain::Field,
            SignalType::Binary => SignalDomain::Binary,
        },
    }
}

/// The signal table of the definitions, before linking: each name once,
/// a later definition of a name replacing an earlier one in its place.
pub open spec fn signal_table(sigs: Seq<Signal>) -> Seq<(Seq<char>, InfoModel)>
    decreases sigs.len(),
{
    if sigs.len() == 0 {
        seq![]
    } else {
        insert_entry(signal_table(sigs.drop_last()), sigs.last().name@, signal_model(sigs.last()))
    }
}

/// The table after recording constraint `idx` on each of `ns` it holds.
pub open spec fn link_names(
    t: Seq<(Seq<char>, InfoModel)>,
    ns: Seq<Seq<char>>,
    idx: usize,
) -> Seq<(Seq<char>, InfoModel)>
    decreases ns.len(),
{
    if ns.len() == 0 {
        t
    } else {
        let t2 = link_names(t, ns.drop_last(), idx);
        let n = ns.last();
        if has_key(t2, n) {
            let k = key_index(t2, n);
            t2.update(
                k,
                (
                    n,
                    InfoModel {
                        constraints_involved: t2[k].1.constraints_involved.push(idx),
                        ..t2[k].1
                    },
                ),
            )
        } else {
            t2
        }
    }
}

/// The table after linking every constraint to the signals it names.
pub open spec fn link_all(t: Seq<(Seq<char>, InfoModel)>, cs: Seq<Constraint>) -> Seq<
    (Seq<char>, InfoModel),
>
    decreases cs.len(),
{
    if cs.len() == 0 {
        t
    } else {
        link_names(
            link_all(t, cs.drop_last()),
            names(cs.last().left) + names(cs.last().right),
            (cs.len() - 1) as usize,
        )
    }
}

/// How many signal definitions have a direction.
pub open spec fn count_direction(sigs: Seq<Signal>, d: SignalDirection) -> nat
    decreases sigs.len(),
{
    if sigs.len() == 0 {
        0
    } else {
        count_direction(sigs.drop_last(), d) + if sigs.last().direction == d {
            1nat
        } else {
            0nat
        }
    }
}

/// The degree by which a constraint is classified: that of its two sides together.
pub open spec fn constraint_degree(c: Constraint) -> int {
    degree(c.left) + degree(c.right)
}

/// How many constraints have a degree in `[lo, hi]`.
pub open spec fn count_degree(cs: Seq<Constraint>, lo: int, hi: int) -> nat
    decreases cs.len(),
{
    if cs.len() == 0 {
        0
    } else {
        count_degree(cs.drop_last(), lo, hi) + if lo <= constraint_degree(cs.last())
            <= hi {
            1nat
        } else {
            0nat
        }
    }
}

/// Whether the degrees of a constraint's sides, and their sum, fit in a `usize`.
pub open spec fn constraint_fits(c: Constraint) -> bool {
    degree_fits(c.left) && degree_fits(c.right) && constraint_degree(c) <= usize::MAX
}

/// The metadata of a circuit's constraint system: counts of signals by
/// direction and of constraints by degree (0 constant, 1 linear, 2 or more
/// quadratic); under-constrained when witnesses outnumber constraints,
/// over-constrained when constraints exceed twice the signals.
pub open spec fn metadata_of(c: Circuit) -> ConstraintMetadata {
    let w = count_direction(c.signals@, SignalDirection::Intermediate);
    ConstraintMetadata {
        total_constraints: c.constraints@.len() as usize,
        total_signals: c.signals@.len() as usize,
        input_signals: count_direction(c.signals@, SignalDirection::Input) as usize,
        output_signals: count_direction(c.signals@, SignalDirection::Output) as usize,
        witness_signals: w as usize,
        quadratic_constraints: count_degree(c.constraints@, 2, usize::MAX as int) as usize,
        linear_constraints: count_degree(c.constraints@, 1, 1) as usize,
        constant_constraints: count_degree(c.constraints@, 0, 0) as usize,
        is_under_constrained: Some(w > c.constraints@.len()),
        is_over_constrained: Some(c.constraints@.len() > 2 * c.signals@.len()),
    }
}

/// The degree of a product is the sum of its factors' degrees; a signal has
/// degree 1 and a constant degree 0, so a product of two signals has degree
/// 2.
pub proof fn lemma_product_degree(l: Expression, r: Expression, x: String, y: String, k: crate::bignum::BigNum)
    ensures
        degree(Expression::BinaryOp(Box::new(l), BinaryOperator::Mul, Box::new(r))) == degree(l)
            + degree(r),
        degree(Expression::Signal(x)) == 1,
        degree(Expression::Constant(k)) == 0,
        degree(
            Expression::BinaryOp(
                Box::new(Expression::Signal(x)),
                BinaryOperator::Mul,
                Box::new(Expression::Signal(y)),
            ),
        ) == 2,
{
    assert(degree(Expression::Signal(x)) == 1);
    assert(degree(Expression::Signal(y)) == 1);
}

/// A power's degree is the product of its operands' degrees; a sum or
/// difference has the larger degree of its operands; a unary operation
/// keeps its operand's degree, and a component output has degree 1.
pub proof fn lemma_degree_rules(l: Expression, r: Expression, u: crate::circuit::parser::UnaryOperator, c: String, s: String)
    ensures
        degree(Expression::BinaryOp(Box::new(l), BinaryOperator::Pow, Box::new(r))) == degree(l)
            * degree(r),
        degree(Expression::BinaryOp(Box::new(l), BinaryOperator::Add, Box::new(r))) >= degree(l),
        degree(Expression::BinaryOp(Box::new(l), BinaryOperator::Add, Box::new(r))) >= degree(r),
        degree(Expression::BinaryOp(Box::new(l), BinaryOperator::Add, Box::new(r))) == degree(l)
            || degree(Expression::BinaryOp(Box::new(l), BinaryOperator::Add, Box::new(r))) == degree(r),
        degree(Expression::BinaryOp(Box::new(l), BinaryOperator::Sub, Box::new(r))) >= degree(l),
        degree(Expression::BinaryOp(Box::new(l), BinaryOperator::Sub, Box::new(r))) >= degree(r),
        degree(Expression::BinaryOp(Box::new(l), BinaryOperator::Sub, Box::new(r))) == degree(l)
            || degree(Expression::BinaryOp(Box::new(l), BinaryOperator::Sub, Box::new(r))) == degree(r),
        degree(Expression::UnaryOp(u, Box::new(l))) == degree(l),
        degree(Expression::ComponentOutput(c, s)) == 1,
{
}

/// A constraint whose sides are a product of two signals and a constant is
/// counted among the quadratic constraints, not the linear or constant ones.
pub proof fn lemma_product_constraint_quadratic(cs: Seq<Constraint>, c: Constraint, x: String, y: String, k: crate::bignum::BigNum)
    requires
        c.left == Expression::BinaryOp(
            Box::new(Expression::Signal(x)),
            BinaryOperator::Mul,
            Box::new(Expression::Signal(y)),
        ),
        c.right == Expression::Constant(k),
    ensures
        count_degree(cs.push(c), 2, usize::MAX as int) == count_degree(cs, 2, usize::MAX as int) + 1,
        count_degree(cs.push(c), 1, 1) == count_degree(cs, 1, 1),
        count_degree(cs.push(c), 0, 0) == count_degree(cs, 0, 0),
{
    lemma_product_degree(Expression::Signal(x), Expression::Signal(y), x, y, k);
    assert(cs.push(c).drop_last() =~= cs);
    assert(constraint_degree(c) == 2);
}

/// Extracts constraint systems from circuits.
#[derive(Debug)]
pub struct ConstraintExtractor;

impl ConstraintExtractor {
    /// An extractor.
    pub fn new() -> (r: Self) {
        ConstraintExtractor
    }

    /// The degree of an expression.
    pub fn get_expression_degree(&self, expr: &Expression) -> (d: usize)
        requires
            degree_fits(*expr),
        ensures
            d == degree(*expr),
        decreases expr,
    {
        match expr {
            Expression::Constant(_) => 0,
            Expression::Signal(_) => 1,
            Expression::BinaryOp(left, op, right) => {
                let l = self.get_expression_degree(left);
                let r = self.get_expression_degree(right);
                match op {
                    BinaryOperator::Mul => l + r,
                    BinaryOperator::Pow => l * r,
                    _ => if l >= r {
                        l
                    } else {
                        r
                    },
                }
            },
            Expression::UnaryOp(_, inner) => self.get_expression_degree(inner),
            Expression::FunctionCall(_, args) => {
                let mut m: usize = 0;
                let mut i: usize = 0;
                proof {
                    vstd::std_specs::vec::axiom_vec_decreases_to_view(*args);
                    assert(args@.take(0) =~= Seq::<Expression>::empty());
                }
                while i < args.len()
                    invariant
                        i <= args.len(),
                        decreases_to!(*expr => *args),
                        args_fit(args@),
                        m == args_degree(args@.take(i as int)),
                    decreases args.len() - i,
                {
                    proof {
                        vstd::std_specs::vec::axiom_vec_index_decreases(*args, i as int);
                        let t = args@.take(i + 1);
                        assert(t.drop_last() =~= args@.take(i as int));
                        lemma_args_fit_each(args@, i as int);
                    }
                    let d = self.get_expression_degree(&args[i]);
                    if d > m {
                        m = d;
                    }
                    i += 1;
                }
                assert(args@.take(i as int) =~= args@);
                m
            },
            Expression::ComponentOutput(_, _) => 1,
        }
    }

    /// The names of the signals an expression mentions.
    fn extract_signal_names(&self, expr: &Expression) -> (r: Vec<String>)
        ensures
            r@.map_values(|s: String| s@) == names(*expr),
        decreases expr,
    {
        match expr {
            Expression::Signal(name) => {
                let r = vec![name.clone()];
                assert(r@.map_values(|s: String| s@) =~= seq![name@]);
                r
            },
            Expression::BinaryOp(left, _, right) => {
                let mut a = self.extract_signal_names(left);
                let mut b = self.extract_signal_names(right);
                let ghost av = a@;
                let ghost bv = b@;
                a.append(&mut b);
                assert(a@ =~= av + bv);
                assert(a@.map_values(|s: String| s@) =~= av.map_values(|s: String| s@)
                    + bv.map_values(|s: String| s@));
                a
            },
            Expression::UnaryOp(_, inner) => self.extract_signal_names(inner),
            Expression::FunctionCall(_, args) => {
                let mut out: Vec<String> = Vec::new();
                let mut i: usize = 0;
                proof {
                    vstd::std_specs::vec::axiom_vec_decreases_to_view(*args);
                    assert(args@.take(0) =~= Seq::<Expression>::empty());
                    assert(out@.map_values(|s: String| s@) =~= Seq::<Seq<char>>::empty());
                }
                while i < args.len()
                    invariant
                        i <= args.len(),
                        decreases_to!(*expr => *args),
                        out@.map_values(|s: String| s@) == args_names(args@.take(i as int)),
                    decreases args.len() - i,
                {
                    proof {
                        vstd::std_specs::vec::axiom_vec_index_decreases(*args, i as int);
                        assert(args@.take(i + 1).drop_last() =~= args@.take(i as int));
                    }
                    let mut b = self.extract_signal_names(&args[i]);
                    let ghost ov = out@;
                    let ghost bv = b@;
                    out.append(&mut b);
                    assert(out@ =~= ov + bv);
                    assert(out@.map_values(|s: String| s@) =~= ov.map_values(|s: String| s@)
                        + bv.map_values(|s: String| s@));
                    i += 1;
                }
                assert(args@.take(i as int) =~= args@);
                out
            },
            Expression::ComponentOutput(component, signal) => {
                let mut s = String::new();
                push_str(&mut s, component.as_str());
                push_str(&mut s, ".");
                push_str(&mut s, signal.as_str());
                let r = vec![s];
                assert(r@.map_values(|s: String| s@) =~= seq![component@ + "."@ + signal@]);
                r
            },
            Expression::Constant(_) => {
                let r: Vec<String> = Vec::new();
                assert(r@.map_values(|s: String| s@) =~= Seq::<Seq<char>>::empty());
                r
            },
        }
    }

    /// Counts a constraint by its degree.
    fn classify_constraint(&self, constraint: &Constraint, metadata: &mut ConstraintMetadata)
        requires
            constraint_fits(*constraint),
            old(metadata).constant_constraints < usize::MAX,
            old(metadata).linear_constraints < usize::MAX,
            old(metadata).quadratic_constraints < usize::MAX,
        ensures
            constraint_degree(*constraint) >= 0,
            *final(metadata) == (if constraint_degree(*constraint) == 0 {
                ConstraintMetadata {
                    constant_constraints: (old(metadata).constant_constraints + 1) as usize,
                    ..*old(metadata)
                }
            } else if constraint_degree(*constraint) == 1 {
                ConstraintMetadata {
                    linear_constraints: (old(metadata).linear_constraints + 1) as usize,
                    ..*old(metadata)
                }
            } else {
                ConstraintMetadata {
                    quadratic_constraints: (old(metadata).quadratic_constraints + 1) as usize,
                    ..*old(metadata)
                }
            }),
    {
        let degree = self.get_expression_degree(&constraint.left) + self.get_expression_degree(
            &constraint.right,
        );
        if degree == 0 {
            metadata.constant_constraints = metadata.constant_constraints + 1;
        } else if degree == 1 {
            metadata.linear_constraints = metadata.linear_constraints + 1;
        } else {
            metadata.quadratic_constraints = metadata.quadratic_constraints + 1;
        }
    }

    /// Records constraint `idx` on every signal of the table that the
    /// constraint names, once per mention.
    fn link_signal_constraints(
        &self,
        constraint: &Constraint,
        idx: usize,
        signals: &mut StrMap<SignalInfo>,
    )
        ensures
            table_model(final(signals)@) == link_names(
                table_model(old(signals)@),
                names(constraint.left) + names(constraint.right),
                idx,
            ),
    {
        let mut ns = self.extract_signal_names(&constraint.left);
        let mut rs = self.extract_signal_names(&constraint.right);
        let ghost lv = ns@;
        let ghost rv = rs@;
        ns.append(&mut rs);
        let ghost nv = ns@.map_values(|s: String| s@);
        assert(ns@ =~= lv + rv);
        assert(nv =~= lv.map_values(|s: String| s@) + rv.map_values(|s: String| s@));
        let ghost t0 = table_model(signals@);
        let mut i: usize = 0;
        assert(nv.take(0) =~= Seq::<Seq<char>>::empty());
        while i < ns.len()
            invariant
                i <= ns.len(),
                nv == ns@.map_values(|s: String| s@),
                table_model(signals@) == link_names(t0, nv.take(i as int), idx),
            decreases ns.len() - i,
        {
            proof {
                assert(nv.take(i + 1).drop_last() =~= nv.take(i as int));
                assert(nv.take(i + 1).last() == ns@[i as int]@);
            }
            let ghost before = signals@;
            match signals.find(ns[i].as_str()) {
                Some(k) => {
                    let stand_in = SignalInfo {
                        name: String::new(),
                        is_input: false,
                        is_output: false,
                        is_witness: false,
                        constraints_involved: Vec::new(),
                        domain: SignalDomain::Field,
                    };
                    let mut info = signals.replace_value_at(k, stand_in);
                    info.constraints_involved.push(idx);
                    signals.replace_value_at(k, info);
                    proof {
                        lemma_table_keys(before, ns@[i as int]@);
                        assert(table_model(signals@) =~= table_model(before).update(
                            k as int,
                            (
                                ns@[i as int]@,
                                InfoModel {
                                    constraints_involved: table_model(
                                        before,
                                    )[k as int].1.constraints_involved.push(idx),
                                    ..table_model(before)[k as int].1
                                },
                            ),
                        ));
                    }
                },
                None => {
                    proof {
                        lemma_table_keys(before, ns@[i as int]@);
                    }
                },
            }
            i += 1;
        }
        assert(nv.take(i as int) =~= nv);
    }

    /// The constraint system of a circuit: its constraints, the table of its
    /// signals with the constraints each takes part in (see `link_all`), and
    /// the counts of `metadata_of`.
    pub fn extract(&self, circuit: &Circuit) -> (r: ConstraintSystem)
        requires
            forall|i: int|
                0 <= i < circuit.constraints@.len() ==> constraint_fits(
                    #[trigger] circuit.constraints@[i],
                ),
        ensures
            r.metadata == metadata_of(*circuit),
            table_model(r.signals@) == link_all(signal_table(circuit.signals@), circuit.constraints@),
            r.constraints@.len() == circuit.constraints@.len(),
            forall|i: int|
                0 <= i < r.constraints@.len() ==> cloned(
                    circuit.constraints@[i],
                    #[trigger] r.constraints@[i],
                ),
    {
        let mut signals: StrMap<SignalInfo> = StrMap::new();
        let mut metadata = ConstraintMetadata {
            total_constraints: circuit.constraints.len(),
            total_signals: circuit.signals.len(),
            input_signals: 0,
            output_signals: 0,
            witness_signals: 0,
            quadratic_constraints: 0,
            linear_constraints: 0,
            constant_constraints: 0,
            is_under_constrained: None,
            is_over_constrained: None,
        };
        let ghost sigs = circuit.signals@;
        let mut i: usize = 0;
        assert(sigs.take(0) =~= Seq::<Signal>::empty());
        assert(table_model(signals@) =~= Seq::<(Seq<char>, InfoModel)>::empty());
        while i < circuit.signals.len()
            invariant
                i <= circuit.signals.len(),
                sigs == circuit.signals@,
                crate::strmap::distinct_keys(signals@),
                table_model(signals@) == signal_table(sigs.take(i as int)),
                metadata.input_signals == count_direction(sigs.take(i as int), SignalDirection::Input),
                metadata.output_signals == count_direction(sigs.take(i as int), SignalDirection::Output),
                metadata.witness_signals == count_direction(
                    sigs.take(i as int),
                    SignalDirection::Intermediate,
                ),
                metadata.input_signals <= i,
                metadata.output_signals <= i,
                metadata.witness_signals <= i,
                metadata.total_constraints == circuit.constraints@.len(),
                metadata.total_signals == circuit.signals@.len(),
                metadata.quadratic_constraints == 0,
                metadata.linear_constraints == 0,
                metadata.constant_constraints == 0,
                metadata.is_under_constrained is None,
                metadata.is_over_constrained is None,
            decreases circuit.signals.len() - i,
        {
            proof {
                assert(sigs.take(i + 1).drop_last() =~= sigs.take(i as int));
                assert(sigs.take(i + 1).last() == sigs[i as int]);
            }
            let signal = &circuit.signals[i];
            let is_input = match signal.direction {
                SignalDirection::Input => true,
                _ => false,
            };
            let is_output = match signal.direction {
                SignalDirection::Output => true,
                _ => false,
            };
            let is_witness = match signal.direction {
                SignalDirection::Intermediate => true,
                _ => false,
            };
            let info = SignalInfo {
                name: signal.name.clone(),
                is_input,
                is_output,
                is_witness,
                constraints_involved: Vec::new(),
                domain: match signal.signal_type {
                    SignalType::Field => SignalDomain::Field,
                    SignalType::Binary => SignalDomain::Binary,
                },
            };
            if is_input {
                metadata.input_signals = metadata.input_signals + 1;
            }
            if is_output {
                metadata.output_signals = metadata.output_signals + 1;
            }
            if is_witness {
                metadata.witness_signals = metadata.witness_signals + 1;
            }
            let ghost before = signals@;
            proof {
                assert(info_model(info) =~= signal_model(sigs[i as int]));
                lemma_table_insert(before, signal.name@, info);
            }
            signals.insert(signal.name.clone(), info);
            i += 1;
        }
        assert(sigs.take(i as int) =~= sigs);
        let ghost cs = circuit.constraints@;
        let ghost t0 = signal_table(sigs);
        let mut j: usize = 0;
        assert(cs.take(0) =~= Seq::<Constraint>::empty());
        while j < circuit.constraints.len()
            invariant
                j <= circuit.constraints.len(),
                cs == circuit.constraints@,
                forall|a: int| 0 <= a < cs.len() ==> constraint_fits(#[trigger] cs[a]),
                table_model(signals@) == link_all(t0, cs.take(j as int)),
                metadata.constant_constraints == count_degree(cs.take(j as int), 0, 0),
                metadata.linear_constraints == count_degree(cs.take(j as int), 1, 1),
                metadata.quadratic_constraints == count_degree(
                    cs.take(j as int),
                    2,
                    usize::MAX as int,
                ),
                metadata.constant_constraints + metadata.linear_constraints
                    + metadata.quadratic_constraints == j,
                metadata.input_signals == count_direction(sigs, SignalDirection::Input),
                metadata.output_signals == count_direction(sigs, SignalDirection::Output),
                metadata.witness_signals == count_direction(sigs, SignalDirection::Intermediate),
                metadata.total_constraints == circuit.constraints@.len(),
                metadata.total_signals == circuit.signals@.len(),
                metadata.is_under_constrained is None,
                metadata.is_over_constrained is None,
            decreases circuit.constraints.len() - j,
        {
            proof {
                assert(cs.take(j + 1).drop_last() =~= cs.take(j as int));
                assert(cs.take(j + 1).last() == cs[j as int]);
            }
            let constraint = &circuit.constraints[j];
            self.classify_constraint(constraint, &mut metadata);
            self.link_signal_constraints(constraint, j, &mut signals);
            j += 1;
        }
        assert(cs.take(j as int) =~= cs);
        metadata.is_under_constrained = Some(self.is_under_constrained(&metadata));
        metadata.is_over_constrained = Some(self.is_over_constrained(&metadata));
        ConstraintSystem { constraints: circuit.constraints.clone(), signals, metadata }
    }

    /// Whether there are more witness signals than constraints.
    fn is_under_constrained(&self, metadata: &ConstraintMetadata) -> (b: bool)
        ensures
            b == (metadata.witness_signals > metadata.total_constraints),
    {
        metadata.witness_signals > metadata.total_constraints
    }

    /// Whether there are more constraints than twice the signals.
    fn is_over_constrained(&self, metadata: &ConstraintMetadata) -> (b: bool)
        ensures
            b == (metadata.total_constraints > 2 * metadata.total_signals),
    {
        metadata.total_constraints / 2 > metadata.total_signals
            || (metadata.total_constraints / 2 == metadata.total_signals
            && metadata.total_constraints % 2 == 1)
    }
}

/// The model of a table has the keys of the table, in the same places.
pub proof fn lemma_table_keys(s: Seq<(Seq<char>, SignalInfo)>, k: Seq<char>)
    requires
        crate::strmap::distinct_keys(s),
    ensures
        crate::strmap::distinct_keys(table_model(s)),
        has_key(table_model(s), k) == has_key(s, k),
        has_key(s, k) ==> key_index(table_model(s), k) == key_index(s, k),
{
    let t = table_model(s);
    assert forall|a: int, b: int|
        0 <= a < t.len() && 0 <= b < t.len() && a != b implies (#[trigger] t[a]).0 != (
    #[trigger] t[b]).0 by {
        assert(t[a].0 == s[a].0);
        assert(t[b].0 == s[b].0);
    }
    if has_key(s, k) {
        let p = key_index(s, k);
        assert(t[p].0 == k);
        crate::strmap::lemma_key_index_unique(t, p);
    }
    if has_key(t, k) {
        let p = key_index(t, k);
        assert(s[p].0 == k);
    }
}

/// Storing in a table and taking the model commute.
pub proof fn lemma_table_insert(s: Seq<(Seq<char>, SignalInfo)>, k: Seq<char>, v: SignalInfo)
    requires
        crate::strmap::distinct_keys(s),
    ensures
        table_model(insert_entry(s, k, v)) == insert_entry(table_model(s), k, info_model(v)),
{
    lemma_table_keys(s, k);
    assert(table_model(insert_entry(s, k, v)) =~= insert_entry(table_model(s), k, info_model(v)));
}

/// Degrees are not negative.
pub proof fn lemma_degree_nonneg(e: Expression)
    ensures
        degree(e) >= 0,
    decreases e,
{
    match e {
        Expression::BinaryOp(l, op, r) => {
            lemma_degree_nonneg(*l);
            lemma_degree_nonneg(*r);
            let a = degree(*l);
            let b = degree(*r);
            assert(a * b >= 0) by (nonlinear_arith)
                requires
                    a >= 0,
                    b >= 0,
            ;
        },
        Expression::UnaryOp(_, inner) => {
            lemma_degree_nonneg(*inner);
        },
        Expression::FunctionCall(_, args) => {
            vstd::std_specs::vec::axiom_vec_decreases_to_view(args);
            lemma_args_degree_nonneg(args@);
        },
        _ => {},
    }
}

/// The degree of call arguments is not negative.
pub proof fn lemma_args_degree_nonneg(s: Seq<Expression>)
    ensures
        args_degree(s) >= 0,
    decreases s,
{
    if s.len() > 0 {
        lemma_args_degree_nonneg(s.drop_last());
    }
}

/// A call's arguments all fit when the call does, one by one.
pub proof fn lemma_args_fit_each(s: Seq<Expression>, i: int)
    requires
        args_fit(s),
        0 <= i < s.len(),
    ensures
        degree_fits(s[i]),
        args_fit(s.take(i + 1)),
    decreases s.len(),
{
    if i < s.len() - 1 {
        assert(s.drop_last()[i] == s[i]);
        lemma_args_fit_each(s.drop_last(), i);
        assert(s.drop_last().take(i + 1) =~= s.take(i + 1));
    } else {
        assert(s.take(i + 1) =~= s);
    }
}

impl Default for ConstraintExtractor {
    fn default() -> (r: Self) {
        ConstraintExtractor::new()
    }
}

} // verus!
