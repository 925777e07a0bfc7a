//! The integer features of a circuit that the feature vector for learning
//! models is built from: signal and constraint counts, connectivity,
//! constraint degrees, template and component statistics, and expression
//! depths with the distribution of operators.
use crate::circuit::constraints::{
    constraint_degree, constraint_fits, degree, table_model, ConstraintExtractor, ConstraintSystem,
};
use crate::circuit::parser::{
    BinaryOperator, Circuit, Component, Constraint, Expression, Signal, SignalDirection, SignalType,
    Template, UnaryOperator,
};
use crate::strmap::{has_key, insert_entry, key_index, StrMap};
use crate::text::{owned, push_str};
use vstd::prelude::*;

verus! {

/// Counts of signals by direction and by type.
pub struct SignalCounts {
    pub input: usize,
    pub output: usize,
    pub witness: usize,
    pub binary: usize,
    pub field: usize,
}

/// Template statistics.
#[derive(Debug, Clone, Copy, PartialEq, Eq, Structural)]
pub struct TemplateTotals {
    pub count: usize,
    pub total_signals: usize,
    pub max_signals: usize,
    pub total_constraints: usize,
    pub max_constraints: usize,
    pub nesting_depth: usize,
}

/// Component statistics.
#[derive(Debug, Clone, Copy, PartialEq, Eq, Structural)]
pub struct ComponentTotals {
    pub count: usize,
    pub total_params: usize,
    pub templates_used: usize,
    pub reused_templates: usize,
}

/// Statistics of expression depths and operators.
#[derive(Debug, Clone)]
pub struct ExpressionStats {
    pub total_depth: usize,
    pub max_depth: usize,
    pub count: usize,
    pub operator_counts: StrMap<usize>,
}

/// Expression statistics as the contracts see them.
pub struct StatsModel {
    pub total_depth: int,
    pub max_depth: int,
    pub count: int,
    pub ops: Seq<(Seq<char>, usize)>,
}

/// The model of expression statistics.
pub open spec fn stats_model(s: ExpressionStats) -> StatsModel {
    StatsModel {
        total_depth: s.total_depth as int,
        max_depth: s.max_depth as int,
        count: s.count as int,
        ops: s.operator_counts@,
    }
}

/// The name of a binary operator, as its `Debug` form prints it.
pub open spec fn binary_name(op: BinaryOperator) -> Seq<char> {
    match op {
        BinaryOperator::Add => "Add"@,
        BinaryOperator::Sub => "Sub"@,
        BinaryOperator::Mul => "Mul"@,
        BinaryOperator::Div => "Div"@,
        BinaryOperator::Pow => "Pow"@,
        BinaryOperator::And => "And"@,
        BinaryOperator::Or => "Or"@,
        BinaryOperator::Xor => "Xor"@,
        BinaryOperator::Eq => "Eq"@,
        BinaryOperator::Neq => "Neq"@,
        BinaryOperator::Lt => "Lt"@,
        BinaryOperator::Gt => "Gt"@,
        BinaryOperator::Lte => "Lte"@,
        BinaryOperator::Gte => "Gte"@,
    }
}

/// The name of a unary operator, as its `Debug` form prints it.
pub open spec fn unary_name(op: UnaryOperator) -> Seq<char> {
    match op {
        UnaryOperator::Neg => "Neg"@,
        UnaryOperator::Not => "Not"@,
        UnaryOperator::Complement => "Complement"@,
    }
}

/// The larger of two integers.
pub open spec fn max_of(a: int, b: int) -> int {
    if a >= b {
        a
    } else {
        b
    }
}

/// The statistics after one operator node at depth `d`.
pub open spec fn note(st: StatsModel, d: int, name: Seq<char>) -> StatsModel {
    StatsModel {
        total_depth: st.total_depth + d,
        max_depth: max_of(st.max_depth, d),
        count: st.count + 1,
        ops: insert_entry(
            st.ops,
            name,
            if has_key(st.ops, name) {
                (st.ops[key_index(st.ops, name)].1 + 1) as usize
            } else {
                1usize
            },
        ),
    }
}

/// The statistics after visiting an expression whose parent is at depth
/// `depth`, in pre-order: every operator, call and component output counts
/// at its own depth (one more than its parent's) under its name; constants
/// and signals do not count.
pub open spec fn visit(e: Expression, depth: int, st: StatsModel) -> StatsModel
    decreases e,
{
    let d = depth + 1;
    match e {
        Expression::Constant(_) => st,
        Expression::Signal(_) => st,
        Expression::BinaryOp(l, op, r) => visit(*r, d, visit(*l, d, note(st, d, binary_name(op)))),
        Expression::UnaryOp(op, inner) => visit(*inner, d, note(st, d, unary_name(op))),
        Expression::FunctionCall(name, args) => {
            proof {
                vstd::std_specs::vec::axiom_vec_decreases_to_view(args);
            }
            visit_list(args@, d, note(st, d, "Call("@ + name@ + ")"@))
        },
        Expression::ComponentOutput(_, _) => note(st, d, "ComponentOutput"@),
    }
}

/// The statistics after visiting expressions in order, all under a parent at `depth`.
pub open spec fn visit_list(s: Seq<Expression>, depth: int, st: StatsModel) -> StatsModel
    decreases s,
{
    if s.len() == 0 {
        st
    } else {
        visit(s.last(), depth, visit_list(s.drop_last(), depth, st))
    }
}

/// Whether every operator count is at most the node count, and the keys distinct.
pub open spec fn ops_bounded(st: StatsModel) -> bool {
    &&& crate::strmap::distinct_keys(st.ops)
    &&& 0 <= st.count
    &&& 0 <= st.total_depth
    &&& 0 <= st.max_depth
    &&& forall|i: int| 0 <= i < st.ops.len() ==> (#[trigger] st.ops[i]).1 <= st.count
}

/// Whether the statistics fit in machine integers.
pub open spec fn stats_fit(st: StatsModel) -> bool {
    st.total_depth <= usize::MAX && st.count <= usize::MAX
}

/// Visiting only adds to the statistics, and keeps the counts bounded.
pub proof fn lemma_visit_grows(e: Expression, depth: int, st: StatsModel)
    requires
        ops_bounded(st),
        depth >= 0,
    ensures
        visit(e, depth, st).total_depth >= st.total_depth,
        visit(e, depth, st).count >= st.count,
        visit(e, depth, st).max_depth >= st.max_depth,
        ops_bounded(visit(e, depth, st)),
        visit(e, depth, st) == st || (visit(e, depth, st).total_depth >= st.total_depth + depth + 1
            && visit(e, depth, st).count >= st.count + 1),
    decreases e,
{
    let d = depth + 1;
    match e {
        Expression::Constant(_) => {},
        Expression::Signal(_) => {},
        Expression::BinaryOp(l, op, r) => {
            let s1 = note(st, d, binary_name(op));
            lemma_note_bounded(st, d, binary_name(op));
            lemma_visit_grows(*l, d, s1);
            lemma_visit_grows(*r, d, visit(*l, d, s1));
        },
        Expression::UnaryOp(op, inner) => {
            let s1 = note(st, d, unary_name(op));
            lemma_note_bounded(st, d, unary_name(op));
            lemma_visit_grows(*inner, d, s1);
        },
        Expression::FunctionCall(name, args) => {
            let s1 = note(st, d, "Call("@ + name@ + ")"@);
            lemma_note_bounded(st, d, "Call("@ + name@ + ")"@);
            vstd::std_specs::vec::axiom_vec_decreases_to_view(args);
            lemma_visit_list_grows(args@, d, s1);
        },
        Expression::ComponentOutput(_, _) => {
            lemma_note_bounded(st, d, "ComponentOutput"@);
        },
    }
}

/// Visiting a list only adds to the statistics, and keeps the counts bounded.
pub proof fn lemma_visit_list_grows(s: Seq<Expression>, depth: int, st: StatsModel)
    requires
        ops_bounded(st),
        depth >= 0,
    ensures
        visit_list(s, depth, st).total_depth >= st.total_depth,
        visit_list(s, depth, st).count >= st.count,
        visit_list(s, depth, st).max_depth >= st.max_depth,
        ops_bounded(visit_list(s, depth, st)),
    decreases s,
{
    if s.len() > 0 {
        lemma_visit_list_grows(s.drop_last(), depth, st);
        lemma_visit_grows(s.last(), depth, visit_list(s.drop_last(), depth, st));
    }
}

/// One operator node keeps the counts bounded.
pub proof fn lemma_note_bounded(st: StatsModel, d: int, name: Seq<char>)
    requires
        ops_bounded(st),
        d >= 1,
    ensures
        ops_bounded(note(st, d, name)),
        note(st, d, name).count == st.count + 1,
        note(st, d, name).total_depth == st.total_depth + d,
{
    let v = if has_key(st.ops, name) {
        (st.ops[key_index(st.ops, name)].1 + 1) as usize
    } else {
        1usize
    };
    crate::strmap::lemma_insert_entry(st.ops, name, v);
    let t = insert_entry(st.ops, name, v);
    assert forall|i: int| 0 <= i < t.len() implies (#[trigger] t[i]).1 <= st.count + 1 by {
        if has_key(st.ops, name) {
            let k = key_index(st.ops, name);
            if i != k {
                assert(t[i] == st.ops[i]);
            }
        } else {
            if i < st.ops.len() {
                assert(t[i] == st.ops[i]);
            }
        }
    }
}

/// The template statistics of a list of templates: their number, the
/// total and largest numbers of signals and of constraints, and a nesting
/// depth of 1, 2 (more than 5 templates) or 3 (more than 10); all zero
/// without templates.
pub open spec fn template_totals(ts: Seq<Template>) -> TemplateTotals {
    if ts.len() == 0 {
        TemplateTotals {
            count: 0,
            total_signals: 0,
            max_signals: 0,
            total_constraints: 0,
            max_constraints: 0,
            nesting_depth: 0,
        }
    } else {
        TemplateTotals {
            count: ts.len() as usize,
            total_signals: sum_signals(ts) as usize,
            max_signals: max_signals(ts) as usize,
            total_constraints: sum_constraints(ts) as usize,
            max_constraints: max_constraints(ts) as usize,
            nesting_depth: if ts.len() > 10 {
                3
            } else if ts.len() > 5 {
                2
            } else {
                1
            },
        }
    }
}

/// The total number of template signals.
pub open spec fn sum_signals(ts: Seq<Template>) -> nat
    decreases ts.len(),
{
    if ts.len() == 0 {
        0
    } else {
        sum_signals(ts.drop_last()) + ts.last().signals@.len()
    }
}

/// The largest number of signals of a template.
pub open spec fn max_signals(ts: Seq<Template>) -> nat
    decreases ts.len(),
{
    if ts.len() == 0 {
        0
    } else {
        max_of(max_signals(ts.drop_last()) as int, ts.last().signals@.len() as int) as nat
    }
}

/// The total number of template constraints.
pub open spec fn sum_constraints(ts: Seq<Template>) -> nat
    decreases ts.len(),
{
    if ts.len() == 0 {
        0
    } else {
        sum_constraints(ts.drop_last()) + ts.last().constraints@.len()
    }
}

/// The largest number of constraints of a template.
pub open spec fn max_constraints(ts: Seq<Template>) -> nat
    decreases ts.len(),
{
    if ts.len() == 0 {
        0
    } else {
        max_of(max_constraints(ts.drop_last()) as int, ts.last().constraints@.len() as int) as nat
    }
}

/// The number of uses of each template name by components, in first-use order.
pub open spec fn template_usage(cs: Seq<Component>) -> Seq<(Seq<char>, usize)>
    decreases cs.len(),
{
    if cs.len() == 0 {
        seq![]
    } else {
        let u = template_usage(cs.drop_last());
        let n = cs.last().template_name@;
        insert_entry(
            u,
            n,
            if has_key(u, n) {
                (u[key_index(u, n)].1 + 1) as usize
            } else {
                1usize
            },
        )
    }
}

/// The total number of component parameters.
pub open spec fn sum_params(cs: Seq<Component>) -> nat
    decreases cs.len(),
{
    if cs.len() == 0 {
        0
    } else {
        sum_params(cs.drop_last()) + cs.last().parameters@.len()
    }
}

/// How many template names are used more than once.
pub open spec fn count_reused(u: Seq<(Seq<char>, usize)>) -> nat
    decreases u.len(),
{
    if u.len() == 0 {
        0
    } else {
        count_reused(u.drop_last()) + if u.last().1 > 1 {
            1nat
        } else {
            0nat
        }
    }
}

/// How many components instantiate the template named `n`.
pub open spec fn template_uses(cs: Seq<Component>, n: Seq<char>) -> nat
    decreases cs.len(),
{
    if cs.len() == 0 {
        0
    } else {
        template_uses(cs.drop_last(), n) + if cs.last().template_name@ == n {
            1nat
        } else {
            0nat
        }
    }
}

/// The template usage table holds each template name once, exactly the
/// names some component instantiates, each with the number of components
/// that instantiate it.
pub proof fn lemma_template_usage_counts(cs: Seq<Component>, n: Seq<char>)
    requires
        cs.len() <= usize::MAX,
    ensures
        crate::strmap::distinct_keys(template_usage(cs)),
        has_key(template_usage(cs), n) <==> template_uses(cs, n) > 0,
        has_key(template_usage(cs), n) ==> crate::strmap::value_for(template_usage(cs), n)
            == template_uses(cs, n),
        template_uses(cs, n) <= cs.len(),
    decreases cs.len(),
{
    if cs.len() > 0 {
        let d = cs.drop_last();
        let u = template_usage(d);
        let m = cs.last().template_name@;
        lemma_template_usage_counts(d, n);
        lemma_template_usage_counts(d, m);
        let v: usize = if has_key(u, m) {
            (u[key_index(u, m)].1 + 1) as usize
        } else {
            1usize
        };
        crate::strmap::lemma_insert_entry(u, m, v);
    }
}

/// With each count matching its name's number of uses, the reused count is
/// the number of names some two or more components instantiate.
pub proof fn lemma_count_reused_names(u: Seq<(Seq<char>, usize)>)
    ensures
        count_reused(u) == u.filter(|p: (Seq<char>, usize)| p.1 > 1).len(),
    decreases u.len(),
{
    reveal_with_fuel(Seq::filter, 1);
    if u.len() > 0 {
        lemma_count_reused_names(u.drop_last());
    }
}

/// The reused-template count is the number of template names that more
/// than one component instantiates; a template instantiated by a single
/// component is not counted.
pub proof fn lemma_reused_templates(cs: Seq<Component>)
    requires
        cs.len() <= usize::MAX,
    ensures
        count_reused(template_usage(cs)) == template_usage(cs).filter(
            |p: (Seq<char>, usize)| template_uses(cs, p.0) > 1,
        ).len(),
{
    let u = template_usage(cs);
    lemma_count_reused_names(u);
    lemma_template_usage_counts(cs, seq![]);
    assert forall|k: int| 0 <= k < u.len() implies (#[trigger] u[k]).1 == template_uses(cs, u[k].0) by {
        lemma_template_usage_counts(cs, u[k].0);
        crate::strmap::lemma_key_index_unique(u, k);
    }
    lemma_filter_same(u, |p: (Seq<char>, usize)| p.1 > 1, |p: (Seq<char>, usize)| template_uses(cs, p.0) > 1);
}

/// Filters by two conditions that agree on every element keep the same elements.
pub proof fn lemma_filter_same<A>(s: Seq<A>, f: spec_fn(A) -> bool, g: spec_fn(A) -> bool)
    requires
        forall|k: int| 0 <= k < s.len() ==> f(#[trigger] s[k]) == g(s[k]),
    ensures
        s.filter(f) == s.filter(g),
    decreases s.len(),
{
    reveal_with_fuel(Seq::filter, 1);
    if s.len() > 0 {
        assert forall|k: int| 0 <= k < s.drop_last().len() implies f(#[trigger] s.drop_last()[k])
            == g(s.drop_last()[k]) by {
            assert(s.drop_last()[k] == s[k]);
        }
        lemma_filter_same(s.drop_last(), f, g);
        assert(f(s[s.len() - 1]) == g(s[s.len() - 1]));
    }
}

/// The number of constraints each signal of the table takes part in, summed, and the largest.
pub open spec fn connectivity_sum(t: Seq<(Seq<char>, crate::circuit::constraints::InfoModel)>) -> nat
    decreases t.len(),
{
    if t.len() == 0 {
        0
    } else {
        connectivity_sum(t.drop_last()) + t.last().1.constraints_involved.len()
    }
}

/// The largest number of constraints a signal of the table takes part in.
pub open spec fn connectivity_max(t: Seq<(Seq<char>, crate::circuit::constraints::InfoModel)>) -> nat
    decreases t.len(),
{
    if t.len() == 0 {
        0
    } else {
        max_of(
            connectivity_max(t.drop_last()) as int,
            t.last().1.constraints_involved.len() as int,
        ) as nat
    }
}

/// The degree of each constraint summed, and the largest.
pub open spec fn degree_sum(cs: Seq<Constraint>) -> int
    decreases cs.len(),
{
    if cs.len() == 0 {
        0
    } else {
        degree_sum(cs.drop_last()) + constraint_degree(cs.last())
    }
}

/// The largest constraint degree (0 with no constraints).
pub open spec fn degree_max(cs: Seq<Constraint>) -> int
    decreases cs.len(),
{
    if cs.len() == 0 {
        0
    } else {
        max_of(degree_max(cs.drop_last()), constraint_degree(cs.last()))
    }
}

/// The names of the features, in the order of the feature vector.
pub open spec fn feature_names() -> Seq<Seq<char>> {
    seq![
        "total_signals"@,
        "total_constraints"@,
        "input_signals"@,
        "output_signals"@,
        "witness_signals"@,
        "binary_signals"@,
        "field_signals"@,
        "connectivity_avg"@,
        "linear_constraints_ratio"@,
        "quadratic_constraints_ratio"@,
        "constant_constraints_ratio"@,
        "constraint_density"@,
        "avg_constraint_degree"@,
        "template_count"@,
        "avg_template_signals"@,
        "max_template_signals"@,
        "avg_template_constraints"@,
        "max_template_constraints"@,
        "nesting_depth"@,
        "component_count"@,
        "avg_component_params"@,
        "component_reuse_ratio"@,
        "avg_expression_depth"@,
        "max_expression_depth"@,
        "complexity_score"@,
        "bug_risk_score"@,
    ]
}

/// The sides of the constraints, left before right, in order.
pub open spec fn constraint_sides(cs: Seq<Constraint>) -> Seq<Expression>
    decreases cs.len(),
{
    if cs.len() == 0 {
        seq![]
    } else {
        constraint_sides(cs.drop_last()).push(cs.last().left).push(cs.last().right)
    }
}

/// The parameters of the components, in order.
pub open spec fn component_params(cs: Seq<Component>) -> Seq<Expression>
    decreases cs.len(),
{
    if cs.len() == 0 {
        seq![]
    } else {
        component_params(cs.drop_last()) + cs.last().parameters@
    }
}

/// The sides of the templates' constraints, in order.
pub open spec fn template_sides(ts: Seq<Template>) -> Seq<Expression>
    decreases ts.len(),
{
    if ts.len() == 0 {
        seq![]
    } else {
        template_sides(ts.drop_last()) + constraint_sides(ts.last().constraints@)
    }
}

/// The expressions the statistics of a circuit visit, in order: the sides
/// of its constraints, its components' parameters, and the sides of its
/// templates' constraints.
pub open spec fn circuit_expressions(c: Circuit) -> Seq<Expression> {
    constraint_sides(c.constraints@) + component_params(c.components@) + template_sides(
        c.templates@,
    )
}

/// Empty statistics.
pub open spec fn empty_stats() -> StatsModel {
    StatsModel { total_depth: 0, max_depth: 0, count: 0, ops: seq![] }
}

/// Visiting a prefix of a list adds no more than visiting the whole list.
pub proof fn lemma_visit_list_prefix(s: Seq<Expression>, n: int, depth: int, st: StatsModel)
    requires
        0 <= n <= s.len(),
        ops_bounded(st),
        depth >= 0,
    ensures
        visit_list(s.take(n), depth, st).total_depth <= visit_list(s, depth, st).total_depth,
        visit_list(s.take(n), depth, st).count <= visit_list(s, depth, st).count,
    decreases s.len() - n,
{
    if n < s.len() {
        lemma_visit_list_prefix(s, n + 1, depth, st);
        assert(s.take(n + 1).drop_last() =~= s.take(n));
        assert(s.take(n + 1).last() == s[n]);
        lemma_visit_list_grows(s.take(n), depth, st);
        lemma_visit_grows(s[n], depth, visit_list(s.take(n), depth, st));
    } else {
        assert(s.take(n) =~= s);
    }
}

/// Extracts features of circuits.
pub struct CircuitFeatureExtractor {
    constraint_extractor: ConstraintExtractor,
}

impl CircuitFeatureExtractor {
    /// An extractor.
    pub fn new() -> (r: Self) {
        CircuitFeatureExtractor { constraint_extractor: ConstraintExtractor::new() }
    }

    /// The constraint system of a circuit, as the feature extraction sees it.
    pub fn constraint_system(&self, circuit: &Circuit) -> (r: ConstraintSystem)
        requires
            forall|i: int|
                0 <= i < circuit.constraints@.len() ==> constraint_fits(
                    #[trigger] circuit.constraints@[i],
                ),
        ensures
            r.metadata == crate::circuit::constraints::metadata_of(*circuit),
            table_model(r.signals@) == crate::circuit::constraints::link_all(
                crate::circuit::constraints::signal_table(circuit.signals@),
                circuit.constraints@,
            ),
    {
        self.constraint_extractor.extract(circuit)
    }

    /// Counts signals by direction and by type.
    pub fn analyze_signals(&self, signals: &Vec<Signal>) -> (r: SignalCounts)
        ensures
            r.input == crate::circuit::constraints::count_direction(signals@, SignalDirection::Input),
            r.output == crate::circuit::constraints::count_direction(signals@, SignalDirection::Output),
            r.witness == crate::circuit::constraints::count_direction(
                signals@,
                SignalDirection::Intermediate,
            ),
            r.binary == count_type(signals@, SignalType::Binary),
            r.field == count_type(signals@, SignalType::Field),
    {
        let mut r = SignalCounts { input: 0, output: 0, witness: 0, binary: 0, field: 0 };
        let mut i: usize = 0;
        assert(signals@.take(0) =~= Seq::<Signal>::empty());
        while i < signals.len()
            invariant
                i <= signals.len(),
                r.input == crate::circuit::constraints::count_direction(
                    signals@.take(i as int),
                    SignalDirection::Input,
                ),
                r.output == crate::circuit::constraints::count_direction(
                    signals@.take(i as int),
                    SignalDirection::Output,
                ),
                r.witness == crate::circuit::constraints::count_direction(
                    signals@.take(i as int),
                    SignalDirection::Intermediate,
                ),
                r.binary == count_type(signals@.take(i as int), SignalType::Binary),
                r.field == count_type(signals@.take(i as int), SignalType::Field),
                r.input + r.output + r.witness == i,
                r.binary + r.field == i,
            decreases signals.len() - i,
        {
            proof {
                assert(signals@.take(i + 1).drop_last() =~= signals@.take(i as int));
                assert(signals@.take(i + 1).last() == signals@[i as int]);
            }
            match signals[i].direction {
                SignalDirection::Input => r.input = r.input + 1,
                SignalDirection::Output => r.output = r.output + 1,
                SignalDirection::Intermediate => r.witness = r.witness + 1,
            }
            match signals[i].signal_type {
                SignalType::Binary => r.binary = r.binary + 1,
                SignalType::Field => r.field = r.field + 1,
            }
            i += 1;
        }
        assert(signals@.take(i as int) =~= signals@);
        r
    }

    /// The total and the largest number of constraints per signal of a
    /// system's table (both zero for an empty table).
    pub fn analyze_signal_connectivity(&self, cs: &ConstraintSystem) -> (r: (usize, usize))
        requires
            connectivity_sum(table_model(cs.signals@)) <= usize::MAX,
        ensures
            r.0 == connectivity_sum(table_model(cs.signals@)),
            r.1 == connectivity_max(table_model(cs.signals@)),
    {
        let ghost t = table_model(cs.signals@);
        let n = cs.signals.len();
        let mut total: usize = 0;
        let mut max: usize = 0;
        let mut i: usize = 0;
        assert(t.take(0) =~= Seq::<(Seq<char>, crate::circuit::constraints::InfoModel)>::empty());
        while i < n
            invariant
                i <= n,
                n == cs.signals@.len(),
                t == table_model(cs.signals@),
                connectivity_sum(t) <= usize::MAX,
                total == connectivity_sum(t.take(i as int)),
                max == connectivity_max(t.take(i as int)),
            decreases n - i,
        {
            proof {
                assert(t.take(i + 1).drop_last() =~= t.take(i as int));
                assert(t.take(i + 1).last() == t[i as int]);
                lemma_connectivity_prefix(t, i as int + 1);
            }
            let c = cs.signals.value_at(i).constraints_involved.len();
            total = total + c;
            if c > max {
                max = c;
            }
            i += 1;
        }
        assert(t.take(i as int) =~= t);
        (total, max)
    }

    /// The linear, quadratic and constant constraint counts of a system.
    pub fn analyze_constraint_types(&self, cs: &ConstraintSystem) -> (r: (usize, usize, usize))
        ensures
            r == (
                cs.metadata.linear_constraints,
                cs.metadata.quadratic_constraints,
                cs.metadata.constant_constraints,
            ),
    {
        (
            cs.metadata.linear_constraints,
            cs.metadata.quadratic_constraints,
            cs.metadata.constant_constraints,
        )
    }

    /// The sum and the largest of the constraint degrees.
    pub fn analyze_constraint_degrees(&self, circuit: &Circuit) -> (r: (usize, usize))
        requires
            forall|i: int|
                0 <= i < circuit.constraints@.len() ==> constraint_fits(
                    #[trigger] circuit.constraints@[i],
                ),
            degree_sum(circuit.constraints@) <= usize::MAX,
        ensures
            r.0 == degree_sum(circuit.constraints@),
            r.1 == degree_max(circuit.constraints@),
    {
        let ghost cs = circuit.constraints@;
        let mut total: usize = 0;
        let mut max: usize = 0;
        let mut j: usize = 0;
        assert(cs.take(0) =~= Seq::<Constraint>::empty());
        while j < circuit.constraints.len()
            invariant
                j <= circuit.constraints.len(),
                cs == circuit.constraints@,
                forall|a: int| 0 <= a < cs.len() ==> constraint_fits(#[trigger] cs[a]),
                degree_sum(cs) <= usize::MAX,
                total == degree_sum(cs.take(j as int)),
                max == degree_max(cs.take(j as int)),
            decreases circuit.constraints.len() - j,
        {
            proof {
                assert(cs.take(j + 1).drop_last() =~= cs.take(j as int));
                assert(cs.take(j + 1).last() == cs[j as int]);
                lemma_degree_sum_prefix(cs, j as int + 1);
            }
            let c = &circuit.constraints[j];
            let d = self.constraint_extractor.get_expression_degree(&c.left)
                + self.constraint_extractor.get_expression_degree(&c.right);
            total = total + d;
            if d > max {
                max = d;
            }
            j += 1;
        }
        assert(cs.take(j as int) =~= cs);
        (total, max)
    }

    /// The template statistics (see `template_totals`).
    pub fn analyze_templates(&self, templates: &Vec<Template>) -> (r: TemplateTotals)
        requires
            sum_signals(templates@) <= usize::MAX,
            sum_constraints(templates@) <= usize::MAX,
        ensures
            r == template_totals(templates@),
    {
        if templates.len() == 0 {
            return TemplateTotals {
                count: 0,
                total_signals: 0,
                max_signals: 0,
                total_constraints: 0,
                max_constraints: 0,
                nesting_depth: 0,
            };
        }
        let ghost ts = templates@;
        let mut total_signals: usize = 0;
        let mut max_sig: usize = 0;
        let mut total_constraints: usize = 0;
        let mut max_con: usize = 0;
        let mut i: usize = 0;
        assert(ts.take(0) =~= Seq::<Template>::empty());
        while i < templates.len()
            invariant
                i <= templates.len(),
                ts == templates@,
                sum_signals(ts) <= usize::MAX,
                sum_constraints(ts) <= usize::MAX,
                total_signals == sum_signals(ts.take(i as int)),
                max_sig == max_signals(ts.take(i as int)),
                total_constraints == sum_constraints(ts.take(i as int)),
                max_con == max_constraints(ts.take(i as int)),
            decreases templates.len() - i,
        {
            proof {
                assert(ts.take(i + 1).drop_last() =~= ts.take(i as int));
                assert(ts.take(i + 1).last() == ts[i as int]);
                lemma_template_sums_prefix(ts, i as int + 1);
            }
            let s = templates[i].signals.len();
            let c = templates[i].constraints.len();
            total_signals = total_signals + s;
            total_constraints = total_constraints + c;
            if s > max_sig {
                max_sig = s;
            }
            if c > max_con {
                max_con = c;
            }
            i += 1;
        }
        assert(ts.take(i as int) =~= ts);
        let count = templates.len();
        let nesting_depth: usize = if count > 10 {
            3
        } else if count > 5 {
            2
        } else {
            1
        };
        TemplateTotals {
            count,
            total_signals,
            max_signals: max_sig,
            total_constraints,
            max_constraints: max_con,
            nesting_depth,
        }
    }

    /// The component statistics: their number, the total number of
    /// parameters, how many template names they use and how many of those
    /// more than once (all zero without components).
    pub fn analyze_components(&self, components: &Vec<Component>) -> (r: ComponentTotals)
        requires
            sum_params(components@) <= usize::MAX,
        ensures
            r.count == components@.len(),
            r.total_params == sum_params(components@),
            r.templates_used == template_usage(components@).len(),
            r.reused_templates == count_reused(template_usage(components@)),
    {
        let ghost cs = components@;
        let mut total_params: usize = 0;
        let mut usage: StrMap<usize> = StrMap::new();
        let mut i: usize = 0;
        assert(cs.take(0) =~= Seq::<Component>::empty());
        while i < components.len()
            invariant
                i <= components.len(),
                cs == components@,
                sum_params(cs) <= usize::MAX,
                total_params == sum_params(cs.take(i as int)),
                usage@ == template_usage(cs.take(i as int)),
                crate::strmap::distinct_keys(usage@),
                forall|k: int| 0 <= k < usage@.len() ==> (#[trigger] usage@[k]).1 <= i,
            decreases components.len() - i,
        {
            proof {
                assert(cs.take(i + 1).drop_last() =~= cs.take(i as int));
                assert(cs.take(i + 1).last() == cs[i as int]);
                lemma_params_prefix(cs, i as int + 1);
            }
            total_params = total_params + components[i].parameters.len();
            let name = components[i].template_name.clone();
            let ghost before = usage@;
            let v: usize = match usage.find(name.as_str()) {
                Some(k) => *usage.value_at(k) + 1,
                None => 1,
            };
            usage.insert(name, v);
            proof {
                crate::strmap::lemma_insert_entry(before, components@[i as int].template_name@, v);
                assert forall|k: int| 0 <= k < usage@.len() implies (#[trigger] usage@[k]).1 <= i + 1 by {
                    if crate::strmap::has_key(before, components@[i as int].template_name@) {
                        let p = key_index(before, components@[i as int].template_name@);
                        if k != p {
                            assert(usage@[k] == before[k]);
                        }
                    } else if k < before.len() {
                        assert(usage@[k] == before[k]);
                    }
                }
            }
            i += 1;
        }
        assert(cs.take(i as int) =~= cs);
        let n = usage.len();
        let mut reused: usize = 0;
        let mut k: usize = 0;
        let ghost u = usage@;
        assert(u.take(0) =~= Seq::<(Seq<char>, usize)>::empty());
        while k < n
            invariant
                k <= n,
                n == usage@.len(),
                u == usage@,
                reused == count_reused(u.take(k as int)),
                reused <= k,
            decreases n - k,
        {
            proof {
                assert(u.take(k + 1).drop_last() =~= u.take(k as int));
                assert(u.take(k + 1).last() == u[k as int]);
            }
            if *usage.value_at(k) > 1 {
                reused = reused + 1;
            }
            k += 1;
        }
        assert(u.take(k as int) =~= u);
        ComponentTotals {
            count: components.len(),
            total_params,
            templates_used: n,
            reused_templates: reused,
        }
    }

    /// Records one operator node at depth `d` (see `note`).
    fn record(&self, stats: &mut ExpressionStats, d: usize, name: String)
        requires
            ops_bounded(stats_model(*old(stats))),
            stats_fit(note(stats_model(*old(stats)), d as int, name@)),
            d >= 1,
        ensures
            stats_model(*final(stats)) == note(stats_model(*old(stats)), d as int, name@),
    {
        let ghost st = stats_model(*stats);
        proof {
            lemma_note_bounded(st, d as int, name@);
        }
        stats.total_depth = stats.total_depth + d;
        stats.count = stats.count + 1;
        if d > stats.max_depth {
            stats.max_depth = d;
        }
        let v: usize = match stats.operator_counts.find(name.as_str()) {
            Some(k) => *stats.operator_counts.value_at(k) + 1,
            None => 1,
        };
        stats.operator_counts.insert(name, v);
    }

    /// Gathers the depth statistics of an expression whose parent is at
    /// `current_depth` (see `visit`).
    pub fn analyze_expression_recursive(
        &self,
        expr: &Expression,
        current_depth: usize,
        stats: &mut ExpressionStats,
    )
        requires
            ops_bounded(stats_model(*old(stats))),
            stats_fit(visit(*expr, current_depth as int, stats_model(*old(stats)))),
        ensures
            stats_model(*final(stats)) == visit(*expr, current_depth as int, stats_model(*old(stats))),
        decreases expr,
    {
        let ghost st = stats_model(*stats);
        let ghost d = current_depth as int + 1;
        match expr {
            Expression::Constant(_) => {},
            Expression::Signal(_) => {},
            Expression::BinaryOp(left, op, right) => {
                let name = binary_op_name(*op);
                proof {
                    let s1 = note(st, d, name@);
                    lemma_note_bounded(st, d, name@);
                    lemma_visit_grows(**left, d, s1);
                    lemma_visit_grows(**right, d, visit(**left, d, s1));
                }
                let new_depth = current_depth + 1;
                self.record(stats, new_depth, name);
                self.analyze_expression_recursive(left, new_depth, stats);
                self.analyze_expression_recursive(right, new_depth, stats);
            },
            Expression::UnaryOp(op, inner) => {
                let name = unary_op_name(*op);
                proof {
                    let s1 = note(st, d, name@);
                    lemma_note_bounded(st, d, name@);
                    lemma_visit_grows(**inner, d, s1);
                }
                let new_depth = current_depth + 1;
                self.record(stats, new_depth, name);
                self.analyze_expression_recursive(inner, new_depth, stats);
            },
            Expression::FunctionCall(fname, args) => {
                let mut name = String::new();
                push_str(&mut name, "Call(");
                push_str(&mut name, fname.as_str());
                push_str(&mut name, ")");
                let ghost s1 = note(st, d, name@);
                proof {
                    assert(name@ =~= "Call("@ + fname@ + ")"@);
                    lemma_note_bounded(st, d, name@);
                    vstd::std_specs::vec::axiom_vec_decreases_to_view(*args);
                    lemma_visit_list_grows(args@, d, s1);
                }
                let new_depth = current_depth + 1;
                self.record(stats, new_depth, name);
                let mut i: usize = 0;
                assert(args@.take(0) =~= Seq::<Expression>::empty());
                while i < args.len()
                    invariant
                        i <= args.len(),
                        decreases_to!(*expr => *args),
                        new_depth == d,
                        d >= 1,
                        ops_bounded(s1),
                        stats_fit(visit_list(args@, d, s1)),
                        stats_model(*stats) == visit_list(args@.take(i as int), d, s1),
                    decreases args.len() - i,
                {
                    proof {
                        vstd::std_specs::vec::axiom_vec_index_decreases(*args, i as int);
                        assert(args@.take(i + 1).drop_last() =~= args@.take(i as int));
                        assert(args@.take(i + 1).last() == args@[i as int]);
                        lemma_visit_list_prefix(args@, i + 1, d, s1);
                        lemma_visit_list_grows(args@.take(i as int), d, s1);
                    }
                    self.analyze_expression_recursive(&args[i], new_depth, stats);
                    i += 1;
                }
                assert(args@.take(i as int) =~= args@);
            },
            Expression::ComponentOutput(_, _) => {
                let name = owned("ComponentOutput");
                proof {
                    lemma_note_bounded(st, d, name@);
                }
                self.record(stats, current_depth + 1, name);
            },
        }
    }

    /// Visits one more expression of a circuit at depth 0.
    fn visit_next(
        &self,
        e: &Expression,
        stats: &mut ExpressionStats,
        all: Ghost<Seq<Expression>>,
        done: Ghost<Seq<Expression>>,
    )
        requires
            ops_bounded(stats_model(*old(stats))),
            stats_model(*old(stats)) == visit_list(done@, 0, empty_stats()),
            done@.push(*e) == all@.take(done@.len() as int + 1),
            done@.len() < all@.len(),
            stats_fit(visit_list(all@, 0, empty_stats())),
        ensures
            stats_model(*final(stats)) == visit_list(done@.push(*e), 0, empty_stats()),
            ops_bounded(stats_model(*final(stats))),
    {
        proof {
            assert(done@.push(*e).drop_last() =~= done@);
            lemma_visit_list_prefix(all@, done@.len() as int + 1, 0, empty_stats());
            lemma_visit_list_grows(done@.push(*e), 0, empty_stats());
        }
        self.analyze_expression_recursive(e, 0, stats);
    }

    /// The depth statistics of all the expressions of a circuit (see
    /// `circuit_expressions`), each visited at depth 0.
    pub fn analyze_expressions(&self, circuit: &Circuit) -> (r: ExpressionStats)
        requires
            stats_fit(visit_list(circuit_expressions(*circuit), 0, empty_stats())),
        ensures
            stats_model(r) == visit_list(circuit_expressions(*circuit), 0, empty_stats()),
    {
        let ghost all = circuit_expressions(*circuit);
        let mut stats = ExpressionStats {
            total_depth: 0,
            max_depth: 0,
            count: 0,
            operator_counts: StrMap::new(),
        };
        let ghost mut done: Seq<Expression> = seq![];
        assert(stats_model(stats) =~= empty_stats());
        let ghost cs = circuit.constraints@;
        let mut j: usize = 0;
        assert(cs.take(0) =~= Seq::<Constraint>::empty());
        while j < circuit.constraints.len()
            invariant
                j <= circuit.constraints.len(),
                cs == circuit.constraints@,
                all == circuit_expressions(*circuit),
                done == constraint_sides(cs.take(j as int)),
                stats_model(stats) == visit_list(done, 0, empty_stats()),
                ops_bounded(stats_model(stats)),
                stats_fit(visit_list(all, 0, empty_stats())),
            decreases circuit.constraints.len() - j,
        {
            proof {
                assert(cs.take(j + 1).drop_last() =~= cs.take(j as int));
                assert(cs.take(j + 1).last() == cs[j as int]);
                lemma_sides_prefix(*circuit, j as int);
            }
            self.visit_next(&circuit.constraints[j].left, &mut stats, Ghost(all), Ghost(done));
            proof {
                done = done.push(cs[j as int].left);
            }
            self.visit_next(&circuit.constraints[j].right, &mut stats, Ghost(all), Ghost(done));
            proof {
                done = done.push(cs[j as int].right);
            }
            j += 1;
        }
        assert(cs.take(j as int) =~= cs);
        let ghost comps = circuit.components@;
        let mut k: usize = 0;
        assert(comps.take(0) =~= Seq::<Component>::empty());
        while k < circuit.components.len()
            invariant
                k <= circuit.components.len(),
                comps == circuit.components@,
                all == circuit_expressions(*circuit),
                done == constraint_sides(circuit.constraints@) + component_params(
                    comps.take(k as int),
                ),
                stats_model(stats) == visit_list(done, 0, empty_stats()),
                ops_bounded(stats_model(stats)),
                stats_fit(visit_list(all, 0, empty_stats())),
            decreases circuit.components.len() - k,
        {
            proof {
                assert(comps.take(k + 1).drop_last() =~= comps.take(k as int));
                assert(comps.take(k + 1).last() == comps[k as int]);
            }
            let ps = &circuit.components[k].parameters;
            let ghost base = done;
            let mut m: usize = 0;
            assert(base + ps@.take(0) =~= base);
            while m < ps.len()
                invariant
                    m <= ps.len(),
                    k < circuit.components.len(),
                    comps == circuit.components@,
                    *ps == comps[k as int].parameters,
                    all == circuit_expressions(*circuit),
                    base == constraint_sides(circuit.constraints@) + component_params(
                        comps.take(k as int),
                    ),
                    done == base + ps@.take(m as int),
                    stats_model(stats) == visit_list(done, 0, empty_stats()),
                    ops_bounded(stats_model(stats)),
                    stats_fit(visit_list(all, 0, empty_stats())),
                decreases ps.len() - m,
            {
                proof {
                    lemma_params_in_all(*circuit, k as int, m as int);
                    assert(base + ps@.take(m + 1) =~= (base + ps@.take(m as int)).push(ps@[m as int]));
                }
                self.visit_next(&ps[m], &mut stats, Ghost(all), Ghost(done));
                proof {
                    done = done.push(ps@[m as int]);
                }
                m += 1;
            }
            proof {
                assert(ps@.take(m as int) =~= ps@);
                assert(constraint_sides(circuit.constraints@) + component_params(comps.take(k + 1))
                    =~= base + ps@);
            }
            k += 1;
        }
        assert(comps.take(k as int) =~= comps);
        let ghost ts = circuit.templates@;
        let mut t: usize = 0;
        assert(ts.take(0) =~= Seq::<Template>::empty());
        assert(done =~= constraint_sides(circuit.constraints@) + component_params(comps)
            + template_sides(ts.take(0)));
        while t < circuit.templates.len()
            invariant
                t <= circuit.templates.len(),
                ts == circuit.templates@,
                comps == circuit.components@,
                all == circuit_expressions(*circuit),
                done == constraint_sides(circuit.constraints@) + component_params(comps)
                    + template_sides(ts.take(t as int)),
                stats_model(stats) == visit_list(done, 0, empty_stats()),
                ops_bounded(stats_model(stats)),
                stats_fit(visit_list(all, 0, empty_stats())),
            decreases circuit.templates.len() - t,
        {
            proof {
                assert(ts.take(t + 1).drop_last() =~= ts.take(t as int));
                assert(ts.take(t + 1).last() == ts[t as int]);
            }
            let tcs = &circuit.templates[t].constraints;
            let ghost base = done;
            let mut q: usize = 0;
            assert(tcs@.take(0) =~= Seq::<Constraint>::empty());
            assert(base + constraint_sides(tcs@.take(0)) =~= base);
            while q < tcs.len()
                invariant
                    q <= tcs.len(),
                    t < circuit.templates.len(),
                    ts == circuit.templates@,
                    comps == circuit.components@,
                    *tcs == ts[t as int].constraints,
                    all == circuit_expressions(*circuit),
                    base == constraint_sides(circuit.constraints@) + component_params(comps)
                        + template_sides(ts.take(t as int)),
                    done == base + constraint_sides(tcs@.take(q as int)),
                    stats_model(stats) == visit_list(done, 0, empty_stats()),
                    ops_bounded(stats_model(stats)),
                    stats_fit(visit_list(all, 0, empty_stats())),
                decreases tcs.len() - q,
            {
                proof {
                    assert(tcs@.take(q + 1).drop_last() =~= tcs@.take(q as int));
                    assert(tcs@.take(q + 1).last() == tcs@[q as int]);
                    lemma_template_sides_in_all(*circuit, t as int, q as int);
                }
                self.visit_next(&tcs[q].left, &mut stats, Ghost(all), Ghost(done));
                proof {
                    done = done.push(tcs@[q as int].left);
                }
                self.visit_next(&tcs[q].right, &mut stats, Ghost(all), Ghost(done));
                proof {
                    done = done.push(tcs@[q as int].right);
                    assert(done =~= base + constraint_sides(tcs@.take(q + 1)));
                }
                q += 1;
            }
            proof {
                assert(tcs@.take(q as int) =~= tcs@);
                assert(template_sides(ts.take(t + 1)) =~= template_sides(ts.take(t as int))
                    + constraint_sides(tcs@));
                assert(done =~= constraint_sides(circuit.constraints@) + component_params(comps)
                    + template_sides(ts.take(t + 1)));
            }
            t += 1;
        }
        proof {
            assert(ts.take(t as int) =~= ts);
            assert(done =~= all);
        }
        stats
    }

    /// The names of the features, in the order of the feature vector.
    pub fn get_feature_names() -> (r: Vec<&'static str>)
        ensures
            r@.len() == 26,
            forall|i: int| 0 <= i < 26 ==> (#[trigger] r@[i])@ == feature_names()[i],
    {
        let r = vec![
            "total_signals",
            "total_constraints",
            "input_signals",
            "output_signals",
            "witness_signals",
            "binary_signals",
            "field_signals",
            "connectivity_avg",
            "linear_constraints_ratio",
            "quadratic_constraints_ratio",
            "constant_constraints_ratio",
            "constraint_density",
            "avg_constraint_degree",
            "template_count",
            "avg_template_signals",
            "max_template_signals",
            "avg_template_constraints",
            "max_template_constraints",
            "nesting_depth",
            "component_count",
            "avg_component_params",
            "component_reuse_ratio",
            "avg_expression_depth",
            "max_expression_depth",
            "complexity_score",
            "bug_risk_score",
        ];
        assert(r@.len() == 26);
        r
    }
}

/// The name of a binary operator.
pub fn binary_op_name(op: BinaryOperator) -> (r: String)
    ensures
        r@ == binary_name(op),
{
    match op {
        BinaryOperator::Add => owned("Add"),
        BinaryOperator::Sub => owned("Sub"),
        BinaryOperator::Mul => owned("Mul"),
        BinaryOperator::Div => owned("Div"),
        BinaryOperator::Pow => owned("Pow"),
        BinaryOperator::And => owned("And"),
        BinaryOperator::Or => owned("Or"),
        BinaryOperator::Xor => owned("Xor"),
        BinaryOperator::Eq => owned("Eq"),
        BinaryOperator::Neq => owned("Neq"),
        BinaryOperator::Lt => owned("Lt"),
        BinaryOperator::Gt => owned("Gt"),
        BinaryOperator::Lte => owned("Lte"),
        BinaryOperator::Gte => owned("Gte"),
    }
}

/// The name of a unary operator.
pub fn unary_op_name(op: UnaryOperator) -> (r: String)
    ensures
        r@ == unary_name(op),
{
    match op {
        UnaryOperator::Neg => owned("Neg"),
        UnaryOperator::Not => owned("Not"),
        UnaryOperator::Complement => owned("Complement"),
    }
}

/// The sides of the first `j + 1` constraints extend those of the first `j`
/// by the two sides of constraint `j`, and lie at the start of the circuit's expressions.
pub proof fn lemma_sides_prefix(c: Circuit, j: int)
    requires
        0 <= j < c.constraints@.len(),
    ensures
        constraint_sides(c.constraints@.take(j + 1)) == constraint_sides(c.constraints@.take(j)).push(
            c.constraints@[j].left,
        ).push(c.constraints@[j].right),
        constraint_sides(c.constraints@.take(j)).push(c.constraints@[j].left) == circuit_expressions(
            c,
        ).take(constraint_sides(c.constraints@.take(j)).len() as int + 1),
        constraint_sides(c.constraints@.take(j)).push(c.constraints@[j].left).push(
            c.constraints@[j].right,
        ) == circuit_expressions(c).take(constraint_sides(c.constraints@.take(j)).len() as int + 2),
        constraint_sides(c.constraints@.take(j)).len() + 2 <= circuit_expressions(c).len(),
{
    let cs = c.constraints@;
    assert(cs.take(j + 1).drop_last() =~= cs.take(j));
    lemma_sides_take_prefix(cs, j + 1);
    let p = constraint_sides(cs.take(j + 1));
    let all = circuit_expressions(c);
    assert(all.take(p.len() as int) =~= p);
    assert(constraint_sides(cs.take(j)).push(cs[j].left) =~= all.take(p.len() - 1));
    assert(p =~= all.take(p.len() as int));
}

/// The sides of a prefix of constraints are a prefix of all their sides.
pub proof fn lemma_sides_take_prefix(cs: Seq<Constraint>, n: int)
    requires
        0 <= n <= cs.len(),
    ensures
        constraint_sides(cs).take(constraint_sides(cs.take(n)).len() as int) == constraint_sides(
            cs.take(n),
        ),
        constraint_sides(cs.take(n)).len() == 2 * n,
        constraint_sides(cs).len() == 2 * cs.len(),
    decreases cs.len() - n,
{
    lemma_sides_len(cs);
    lemma_sides_len(cs.take(n));
    if n < cs.len() {
        lemma_sides_take_prefix(cs, n + 1);
        assert(cs.take(n + 1).drop_last() =~= cs.take(n));
        let a = constraint_sides(cs.take(n));
        let b = constraint_sides(cs.take(n + 1));
        assert(constraint_sides(cs).take(a.len() as int) =~= b.take(a.len() as int));
        assert(b.take(a.len() as int) =~= a);
    } else {
        assert(cs.take(n) =~= cs);
    }
}

/// Each constraint has two sides.
pub proof fn lemma_sides_len(cs: Seq<Constraint>)
    ensures
        constraint_sides(cs).len() == 2 * cs.len(),
    decreases cs.len(),
{
    if cs.len() > 0 {
        lemma_sides_len(cs.drop_last());
    }
}

/// The `m`-th parameter of component `k` comes next after the parameters before it.
pub proof fn lemma_params_in_all(c: Circuit, k: int, m: int)
    requires
        0 <= k < c.components@.len(),
        0 <= m < c.components@[k].parameters@.len(),
    ensures
        ({
            let base = constraint_sides(c.constraints@) + component_params(c.components@.take(k));
            let ps = c.components@[k].parameters@;
            &&& (base + ps.take(m)).push(ps[m]) == circuit_expressions(c).take(
                (base + ps.take(m)).len() as int + 1,
            )
            &&& (base + ps.take(m)).len() < circuit_expressions(c).len()
        }),
{
    let comps = c.components@;
    let base = constraint_sides(c.constraints@) + component_params(comps.take(k));
    let ps = comps[k].parameters@;
    lemma_component_params_prefix(comps, k + 1);
    assert(comps.take(k + 1).drop_last() =~= comps.take(k));
    assert(comps.take(k + 1).last() == comps[k]);
    let all = circuit_expressions(c);
    let full = constraint_sides(c.constraints@) + component_params(comps.take(k + 1));
    assert(full =~= base + ps);
    assert(all.take(full.len() as int) =~= full);
    assert((base + ps.take(m)).push(ps[m]) =~= full.take((base + ps.take(m)).len() as int + 1));
}

/// The parameters of a prefix of components are a prefix of all their parameters.
pub proof fn lemma_component_params_prefix(cs: Seq<Component>, n: int)
    requires
        0 <= n <= cs.len(),
    ensures
        component_params(cs).take(component_params(cs.take(n)).len() as int) == component_params(
            cs.take(n),
        ),
        component_params(cs.take(n)).len() <= component_params(cs).len(),
    decreases cs.len() - n,
{
    if n < cs.len() {
        lemma_component_params_prefix(cs, n + 1);
        assert(cs.take(n + 1).drop_last() =~= cs.take(n));
        let a = component_params(cs.take(n));
        let b = component_params(cs.take(n + 1));
        assert(component_params(cs).take(a.len() as int) =~= b.take(a.len() as int));
        assert(b.take(a.len() as int) =~= a);
    } else {
        assert(cs.take(n) =~= cs);
    }
}

/// The sides of constraint `q` of template `t` come next.
pub proof fn lemma_template_sides_in_all(c: Circuit, t: int, q: int)
    requires
        0 <= t < c.templates@.len(),
        0 <= q < c.templates@[t].constraints@.len(),
    ensures
        ({
            let base = constraint_sides(c.constraints@) + component_params(c.components@)
                + template_sides(c.templates@.take(t));
            let tcs = c.templates@[t].constraints@;
            let done = base + constraint_sides(tcs.take(q));
            &&& done.push(tcs[q].left) == circuit_expressions(c).take(done.len() as int + 1)
            &&& done.push(tcs[q].left).push(tcs[q].right) == circuit_expressions(c).take(
                done.len() as int + 2,
            )
            &&& done.len() + 2 <= circuit_expressions(c).len()
        }),
{
    let ts = c.templates@;
    let head = constraint_sides(c.constraints@) + component_params(c.components@);
    let base = head + template_sides(ts.take(t));
    let tcs = ts[t].constraints@;
    let done = base + constraint_sides(tcs.take(q));
    lemma_template_sides_prefix(ts, t + 1);
    assert(ts.take(t + 1).drop_last() =~= ts.take(t));
    assert(ts.take(t + 1).last() == ts[t]);
    lemma_sides_take_prefix(tcs, q + 1);
    assert(tcs.take(q + 1).drop_last() =~= tcs.take(q));
    let all = circuit_expressions(c);
    let upto = head + template_sides(ts.take(t + 1));
    assert(upto =~= base + constraint_sides(tcs));
    assert(all.take(upto.len() as int) =~= upto);
    let sq1 = constraint_sides(tcs.take(q + 1));
    assert(constraint_sides(tcs).take(sq1.len() as int) == sq1);
    assert(done.push(tcs[q].left).push(tcs[q].right) =~= base + sq1);
    assert(base + sq1 =~= upto.take((base + sq1).len() as int));
    assert(done.push(tcs[q].left) =~= upto.take(done.len() as int + 1));
}

/// The sides of a prefix of templates are a prefix of all their sides.
pub proof fn lemma_template_sides_prefix(ts: Seq<Template>, n: int)
    requires
        0 <= n <= ts.len(),
    ensures
        template_sides(ts).take(template_sides(ts.take(n)).len() as int) == template_sides(
            ts.take(n),
        ),
        template_sides(ts.take(n)).len() <= template_sides(ts).len(),
    decreases ts.len() - n,
{
    if n < ts.len() {
        lemma_template_sides_prefix(ts, n + 1);
        assert(ts.take(n + 1).drop_last() =~= ts.take(n));
        let a = template_sides(ts.take(n));
        let b = template_sides(ts.take(n + 1));
        assert(template_sides(ts).take(a.len() as int) =~= b.take(a.len() as int));
        assert(b.take(a.len() as int) =~= a);
    } else {
        assert(ts.take(n) =~= ts);
    }
}

/// How many signals have a type.
pub open spec fn count_type(sigs: Seq<Signal>, t: SignalType) -> nat
    decreases sigs.len(),
{
    if sigs.len() == 0 {
        0
    } else {
        count_type(sigs.drop_last(), t) + if sigs.last().signal_type == t {
            1nat
        } else {
            0nat
        }
    }
}

/// A prefix's connectivity sum is at most the whole sum.
pub proof fn lemma_connectivity_prefix(t: Seq<(Seq<char>, crate::circuit::constraints::InfoModel)>, n: int)
    requires
        0 <= n <= t.len(),
    ensures
        connectivity_sum(t.take(n)) <= connectivity_sum(t),
    decreases t.len() - n,
{
    if n < t.len() {
        lemma_connectivity_prefix(t, n + 1);
        assert(t.take(n + 1).drop_last() =~= t.take(n));
    } else {
        assert(t.take(n) =~= t);
    }
}

/// A prefix's degree sum is at most the whole sum.
pub proof fn lemma_degree_sum_prefix(cs: Seq<Constraint>, n: int)
    requires
        0 <= n <= cs.len(),
        forall|a: int| 0 <= a < cs.len() ==> constraint_fits(#[trigger] cs[a]),
    ensures
        degree_sum(cs.take(n)) <= degree_sum(cs),
        degree_sum(cs.take(n)) >= 0,
    decreases cs.len() - n,
{
    lemma_degree_sum_nonneg(cs.take(n));
    if n < cs.len() {
        lemma_degree_sum_prefix(cs, n + 1);
        assert(cs.take(n + 1).drop_last() =~= cs.take(n));
        assert(cs.take(n + 1).last() == cs[n]);
        lemma_constraint_degree_nonneg(cs[n]);
    } else {
        assert(cs.take(n) =~= cs);
    }
}

/// Degree sums are not negative.
pub proof fn lemma_degree_sum_nonneg(cs: Seq<Constraint>)
    ensures
        degree_sum(cs) >= 0,
    decreases cs.len(),
{
    if cs.len() > 0 {
        lemma_degree_sum_nonneg(cs.drop_last());
        lemma_constraint_degree_nonneg(cs.last());
    }
}

/// A constraint's degree is not negative.
pub proof fn lemma_constraint_degree_nonneg(c: Constraint)
    ensures
        constraint_degree(c) >= 0,
{
    crate::circuit::constraints::lemma_degree_nonneg(c.left);
    crate::circuit::constraints::lemma_degree_nonneg(c.right);
}

/// A prefix's template sums are at most the whole sums.
pub proof fn lemma_template_sums_prefix(ts: Seq<Template>, n: int)
    requires
        0 <= n <= ts.len(),
    ensures
        sum_signals(ts.take(n)) <= sum_signals(ts),
        sum_constraints(ts.take(n)) <= sum_constraints(ts),
    decreases ts.len() - n,
{
    if n < ts.len() {
        lemma_template_sums_prefix(ts, n + 1);
        assert(ts.take(n + 1).drop_last() =~= ts.take(n));
    } else {
        assert(ts.take(n) =~= ts);
    }
}

/// A prefix's parameter sum is at most the whole sum.
pub proof fn lemma_params_prefix(cs: Seq<Component>, n: int)
    requires
        0 <= n <= cs.len(),
    ensures
        sum_params(cs.take(n)) <= sum_params(cs),
    decreases cs.len() - n,
{
    if n < cs.len() {
        lemma_params_prefix(cs, n + 1);
        assert(cs.take(n + 1).drop_last() =~= cs.take(n));
    } else {
        assert(cs.take(n) =~= cs);
    }
}

} // verus!
