//! Static checks of a circuit: under- and over-constrained systems, unused
//! intermediate signals, constant-only constraints and divisions that may
//! divide by zero; and the integer metrics of a circuit.
use crate::circuit::constraints::{
    args_degree, constraint_degree, constraint_fits, count_degree, count_direction, degree,
    degree_fits, names, lemma_args_fit_each,
};
use crate::circuit::parser::{BinaryOperator, Circuit, Constraint, Expression, Signal, SignalDirection};
use crate::strmap::str_eq;
use crate::text::{decimal, owned, push_decimal, push_str};
use vstd::prelude::*;

verus! {

/// The static analyzer.
#[derive(Debug)]
pub struct StaticAnalyzer;

/// An issue found by a check.
#[derive(Debug, Clone)]
pub struct StaticIssue {
    pub issue_type: IssueType,
    pub severity: IssueSeverity,
    pub location: String,
    pub description: String,
    pub suggestion: String,
}

/// Kinds of issues.
#[derive(Debug, Clone, Copy, PartialEq, Eq, Structural)]
pub enum IssueType {
    UnderConstrained,
    OverConstrained,
    UnusedSignal,
    UnreachableConstraint,
    DivisionByZero,
    CircularDependency,
    TypeMismatch,
    MissingInput,
    MissingOutput,
    InconsistentDimensions,
}

/// How serious an issue is.
#[derive(Debug, Clone, Copy, PartialEq, Eq, Structural)]
pub enum IssueSeverity {
    Critical,
    High,
    Medium,
    Low,
    Info,
}

/// The integer metrics of a circuit.
#[derive(Debug, Clone, Copy, PartialEq, Eq, Structural)]
pub struct MetricCounts {
    pub total_signals: usize,
    pub input_signals: usize,
    pub output_signals: usize,
    pub witness_signals: usize,
    pub total_constraints: usize,
    pub linear_constraints: usize,
    pub quadratic_constraints: usize,
    pub constant_constraints: usize,
    pub unused_signals: usize,
}

/// An issue as the contracts see it.
pub struct IssueModel {
    pub issue_type: IssueType,
    pub severity: IssueSeverity,
    pub location: Seq<char>,
    pub description: Seq<char>,
    pub suggestion: Seq<char>,
}

/// The model of an issue.
pub open spec fn issue_model(i: StaticIssue) -> IssueModel {
    IssueModel {
        issue_type: i.issue_type,
        severity: i.severity,
        location: i.location@,
        description: i.description@,
        suggestion: i.suggestion@,
    }
}

/// The models of a list of issues.
pub open spec fn issue_models(s: Seq<StaticIssue>) -> Seq<IssueModel> {
    s.map_values(|i: StaticIssue| issue_model(i))
}

/// The issue of a circuit with more witness signals than constraints.
pub open spec fn under_issues(c: Circuit) -> Seq<IssueModel> {
    let w = count_direction(c.signals@, SignalDirection::Intermediate);
    let n = c.constraints@.len();
    if w > n {
        seq![
            IssueModel {
                issue_type: IssueType::UnderConstrained,
                severity: IssueSeverity::High,
                location: "circuit"@,
                description: "Circuit may be under-constrained: "@ + decimal(w) + " witness signals but only "@
                    + decimal(n) + " constraints"@,
                suggestion: "Add more constraints or reduce the number of intermediate signals"@,
            },
        ]
    } else {
        seq![]
    }
}

/// The issue of a circuit with signals and more than twice as many constraints.
pub open spec fn over_issues(c: Circuit) -> Seq<IssueModel> {
    let s = c.signals@.len();
    let n = c.constraints@.len();
    if n > 2 * s && s > 0 {
        seq![
            IssueModel {
                issue_type: IssueType::OverConstrained,
                severity: IssueSeverity::Medium,
                location: "circuit"@,
                description: "Circuit may be over-constrained: "@ + decimal(n) + " constraints for "@
                    + decimal(s) + " signals"@,
                suggestion: "Review constraints for redundancy or conflicts"@,
            },
        ]
    } else {
        seq![]
    }
}

/// Every name the constraints mention, left side before right, in order.
pub open spec fn used_names(cs: Seq<Constraint>) -> Seq<Seq<char>>
    decreases cs.len(),
{
    if cs.len() == 0 {
        seq![]
    } else {
        used_names(cs.drop_last()) + names(cs.last().left) + names(cs.last().right)
    }
}

/// The issues of intermediate signals no constraint mentions, in signal order.
pub open spec fn unused_issues(sigs: Seq<Signal>, used: Seq<Seq<char>>) -> Seq<IssueModel>
    decreases sigs.len(),
{
    if sigs.len() == 0 {
        seq![]
    } else {
        let r = unused_issues(sigs.drop_last(), used);
        let s = sigs.last();
        if !used.contains(s.name@) && s.direction == SignalDirection::Intermediate {
            r.push(
                IssueModel {
                    issue_type: IssueType::UnusedSignal,
                    severity: IssueSeverity::Low,
                    location: "signal: "@ + s.name@,
                    description: "Signal '"@ + s.name@ + "' is declared but never used"@,
                    suggestion: "Remove unused signal or use it in constraints"@,
                },
            )
        } else {
            r
        }
    }
}

/// Whether an expression holds no signal and no component output.
pub open spec fn is_const(e: Expression) -> bool
    decreases e,
{
    match e {
        Expression::Constant(_) => true,
        Expression::Signal(_) => false,
        Expression::BinaryOp(l, _, r) => is_const(*l) && is_const(*r),
        Expression::UnaryOp(_, inner) => is_const(*inner),
        Expression::FunctionCall(_, args) => {
            proof {
                vstd::std_specs::vec::axiom_vec_decreases_to_view(args);
            }
            all_const(args@)
        },
        Expression::ComponentOutput(_, _) => false,
    }
}

/// Whether every argument is constant.
pub open spec fn all_const(s: Seq<Expression>) -> bool
    decreases s,
{
    s.len() == 0 || (all_const(s.drop_last()) && is_const(s.last()))
}

/// Whether an expression may divide by zero: a division whose divisor is a
/// zero constant or a signal, or a risk further down the right operands,
/// unary operands and call arguments (left operands are not searched).
pub open spec fn div_risk(e: Expression) -> bool
    decreases e,
{
    match e {
        Expression::BinaryOp(_, op, r) => if op == BinaryOperator::Div {
            match *r {
                Expression::Constant(v) => v@ == 0,
                Expression::Signal(_) => true,
                _ => div_risk(*r),
            }
        } else {
            div_risk(*r)
        },
        Expression::UnaryOp(_, inner) => div_risk(*inner),
        Expression::FunctionCall(_, args) => {
            proof {
                vstd::std_specs::vec::axiom_vec_decreases_to_view(args);
            }
            any_div_risk(args@)
        },
        _ => false,
    }
}

/// Whether some argument may divide by zero.
pub open spec fn any_div_risk(s: Seq<Expression>) -> bool
    decreases s,
{
    s.len() > 0 && (any_div_risk(s.drop_last()) || div_risk(s.last()))
}

/// The issues of constraints whose two sides are constant, in order.
pub open spec fn unreachable_issues(cs: Seq<Constraint>) -> Seq<IssueModel>
    decreases cs.len(),
{
    if cs.len() == 0 {
        seq![]
    } else {
        let r = unreachable_issues(cs.drop_last());
        let idx = (cs.len() - 1) as nat;
        if is_const(cs.last().left) && is_const(cs.last().right) {
            r.push(
                IssueModel {
                    issue_type: IssueType::UnreachableConstraint,
                    severity: IssueSeverity::Medium,
                    location: "constraint: "@ + decimal(idx),
                    description: "Constraint "@ + decimal(idx) + " appears to be constant-only"@,
                    suggestion: "Review constraint for correctness"@,
                },
            )
        } else {
            r
        }
    }
}

/// The issues of constraints that may divide by zero, in order.
pub open spec fn division_issues(cs: Seq<Constraint>) -> Seq<IssueModel>
    decreases cs.len(),
{
    if cs.len() == 0 {
        seq![]
    } else {
        let r = division_issues(cs.drop_last());
        let idx = (cs.len() - 1) as nat;
        if div_risk(cs.last().left) || div_risk(cs.last().right) {
            r.push(
                IssueModel {
                    issue_type: IssueType::DivisionByZero,
                    severity: IssueSeverity::High,
                    location: "constraint: "@ + decimal(idx),
                    description: "Constraint "@ + decimal(idx) + " may have division by zero"@,
                    suggestion: "Add checks to ensure divisor is non-zero"@,
                },
            )
        } else {
            r
        }
    }
}

/// The integer metrics of a circuit: signals by direction, constraints by
/// degree (0 constant, 1 linear, 2 or more quadratic); unused signals are
/// not counted here.
pub open spec fn metric_counts(c: Circuit) -> MetricCounts {
    MetricCounts {
        total_signals: c.signals@.len() as usize,
        input_signals: count_direction(c.signals@, SignalDirection::Input) as usize,
        output_signals: count_direction(c.signals@, SignalDirection::Output) as usize,
        witness_signals: count_direction(c.signals@, SignalDirection::Intermediate) as usize,
        total_constraints: c.constraints@.len() as usize,
        linear_constraints: count_degree(c.constraints@, 1, 1) as usize,
        quadratic_constraints: count_degree(c.constraints@, 2, usize::MAX as int) as usize,
        constant_constraints: count_degree(c.constraints@, 0, 0) as usize,
        unused_signals: 0,
    }
}

/// How many issues have a severity.
pub open spec fn count_severity_of(ms: Seq<IssueModel>, s: IssueSeverity) -> nat
    decreases ms.len(),
{
    if ms.len() == 0 {
        0
    } else {
        count_severity_of(ms.drop_last(), s) + if ms.last().severity == s {
            1nat
        } else {
            0nat
        }
    }
}

/// An issue from its parts.
fn make_issue(
    issue_type: IssueType,
    severity: IssueSeverity,
    location: String,
    description: String,
    suggestion: &str,
) -> (i: StaticIssue)
    ensures
        issue_model(i) == (IssueModel {
            issue_type,
            severity,
            location: location@,
            description: description@,
            suggestion: suggestion@,
        }),
{
    StaticIssue { issue_type, severity, location, description, suggestion: owned(suggestion) }
}

/// The number of signals with a direction.
pub fn count_signals(sigs: &Vec<Signal>, d: SignalDirection) -> (n: usize)
    ensures
        n == count_direction(sigs@, d),
        n <= sigs@.len(),
{
    let mut n: usize = 0;
    let mut i: usize = 0;
    assert(sigs@.take(0) =~= Seq::<Signal>::empty());
    while i < sigs.len()
        invariant
            i <= sigs.len(),
            n == count_direction(sigs@.take(i as int), d),
            n <= i,
        decreases sigs.len() - i,
    {
        proof {
            assert(sigs@.take(i + 1).drop_last() =~= sigs@.take(i as int));
        }
        if sigs[i].direction == d {
            n = n + 1;
        }
        i += 1;
    }
    assert(sigs@.take(i as int) =~= sigs@);
    n
}

/// Appends one issue to a list.
fn push_issue(issues: &mut Vec<StaticIssue>, i: StaticIssue)
    ensures
        issue_models(final(issues)@) == issue_models(old(issues)@).push(issue_model(i)),
{
    issues.push(i);
    assert(issue_models(issues@) =~= issue_models(old(issues)@).push(issue_model(i)));
}

/// A division is a division-by-zero risk where its divisor is a signal,
/// whose value may be zero, or the constant zero; dividing by a nonzero
/// constant is no risk.
pub proof fn lemma_divisor_risk(l: Expression, name: String, v: crate::bignum::BigNum)
    ensures
        div_risk(Expression::BinaryOp(Box::new(l), BinaryOperator::Div, Box::new(Expression::Signal(name)))),
        div_risk(Expression::BinaryOp(Box::new(l), BinaryOperator::Div, Box::new(Expression::Constant(v))))
            <==> v@ == 0,
{
}

/// A constant is constant and a signal or component output is not; an
/// operation on two operands is constant exactly when both operands are.
pub proof fn lemma_const_rules(
    l: Expression,
    op: BinaryOperator,
    r: Expression,
    v: crate::bignum::BigNum,
    name: String,
    comp: String,
)
    ensures
        is_const(Expression::Constant(v)),
        !is_const(Expression::Signal(name)),
        !is_const(Expression::ComponentOutput(comp, name)),
        is_const(Expression::BinaryOp(Box::new(l), op, Box::new(r))) <==> is_const(l) && is_const(r),
{
}

/// The issue that reports constraint `i` as constant-only.
pub open spec fn unreachable_issue_at(i: nat) -> IssueModel {
    IssueModel {
        issue_type: IssueType::UnreachableConstraint,
        severity: IssueSeverity::Medium,
        location: "constraint: "@ + decimal(i),
        description: "Constraint "@ + decimal(i) + " appears to be constant-only"@,
        suggestion: "Review constraint for correctness"@,
    }
}

/// Every constraint whose two sides are constant is reported, with its own
/// index.
pub proof fn lemma_unreachable_reported(cs: Seq<Constraint>, i: int)
    requires
        0 <= i < cs.len(),
        is_const(cs[i].left) && is_const(cs[i].right),
    ensures
        unreachable_issues(cs).contains(unreachable_issue_at(i as nat)),
    decreases cs.len(),
{
    let r = unreachable_issues(cs.drop_last());
    if i < cs.len() - 1 {
        assert(cs.drop_last()[i] == cs[i]);
        lemma_unreachable_reported(cs.drop_last(), i);
        let j = choose|j: int| 0 <= j < r.len() && r[j] == unreachable_issue_at(i as nat);
        if is_const(cs.last().left) && is_const(cs.last().right) {
            assert(unreachable_issues(cs)[j] == r[j]);
        }
        assert(unreachable_issues(cs)[j] == unreachable_issue_at(i as nat));
    } else {
        let d = unreachable_issues(cs);
        assert(d[d.len() - 1] == unreachable_issue_at(i as nat));
    }
}

/// The issue that reports a possible division by zero in constraint `i`.
pub open spec fn division_issue_at(i: nat) -> IssueModel {
    IssueModel {
        issue_type: IssueType::DivisionByZero,
        severity: IssueSeverity::High,
        location: "constraint: "@ + decimal(i),
        description: "Constraint "@ + decimal(i) + " may have division by zero"@,
        suggestion: "Add checks to ensure divisor is non-zero"@,
    }
}

/// Every constraint with a division-by-zero risk on either side is
/// reported, with its own index.
pub proof fn lemma_division_reported(cs: Seq<Constraint>, i: int)
    requires
        0 <= i < cs.len(),
        div_risk(cs[i].left) || div_risk(cs[i].right),
    ensures
        division_issues(cs).contains(division_issue_at(i as nat)),
    decreases cs.len(),
{
    let r = division_issues(cs.drop_last());
    if i < cs.len() - 1 {
        assert(cs.drop_last()[i] == cs[i]);
        lemma_division_reported(cs.drop_last(), i);
        let j = choose|j: int| 0 <= j < r.len() && r[j] == division_issue_at(i as nat);
        if div_risk(cs.last().left) || div_risk(cs.last().right) {
            assert(division_issues(cs)[j] == r[j]);
        }
        assert(division_issues(cs)[j] == division_issue_at(i as nat));
    } else {
        let d = division_issues(cs);
        assert(d[d.len() - 1] == division_issue_at(i as nat));
    }
}

impl StaticAnalyzer {
    /// An analyzer.
    pub fn new() -> (r: Self) {
        StaticAnalyzer
    }

    /// The issues of all checks, in the order the analysis runs them:
    /// under-constrained, over-constrained, unused signals, unreachable
    /// constraints, division by zero.
    pub fn collect_issues(&self, circuit: &Circuit) -> (r: Vec<StaticIssue>)
        ensures
            issue_models(r@) == under_issues(*circuit) + over_issues(*circuit) + unused_issues(
                circuit.signals@,
                used_names(circuit.constraints@),
            ) + unreachable_issues(circuit.constraints@) + division_issues(circuit.constraints@),
    {
        let mut issues: Vec<StaticIssue> = Vec::new();
        assert(issue_models(issues@) =~= Seq::<IssueModel>::empty());
        self.check_under_constrained(circuit, &mut issues);
        self.check_over_constrained(circuit, &mut issues);
        self.check_unused_signals(circuit, &mut issues);
        self.check_unreachable_constraints(circuit, &mut issues);
        self.check_division_by_zero(circuit, &mut issues);
        assert(issue_models(issues@) =~= under_issues(*circuit) + over_issues(*circuit)
            + unused_issues(circuit.signals@, used_names(circuit.constraints@)) + unreachable_issues(
            circuit.constraints@,
        ) + division_issues(circuit.constraints@));
        issues
    }

    /// Adds the issue of `under_issues`, if any.
    pub fn check_under_constrained(&self, circuit: &Circuit, issues: &mut Vec<StaticIssue>)
        ensures
            issue_models(final(issues)@) == issue_models(old(issues)@) + under_issues(*circuit),
    {
        let w = count_signals(&circuit.signals, SignalDirection::Intermediate);
        let n = circuit.constraints.len();
        if w > n {
            let mut d = String::new();
            push_str(&mut d, "Circuit may be under-constrained: ");
            push_decimal(&mut d, w as u64);
            push_str(&mut d, " witness signals but only ");
            push_decimal(&mut d, n as u64);
            push_str(&mut d, " constraints");
            let issue = make_issue(
                IssueType::UnderConstrained,
                IssueSeverity::High,
                owned("circuit"),
                d,
                "Add more constraints or reduce the number of intermediate signals",
            );
            push_issue(issues, issue);
            assert(issue_models(issues@) =~= issue_models(old(issues)@) + under_issues(*circuit));
        } else {
            assert(issue_models(issues@) =~= issue_models(old(issues)@) + under_issues(*circuit));
        }
    }

    /// Adds the issue of `over_issues`, if any.
    pub fn check_over_constrained(&self, circuit: &Circuit, issues: &mut Vec<StaticIssue>)
        ensures
            issue_models(final(issues)@) == issue_models(old(issues)@) + over_issues(*circuit),
    {
        let s = circuit.signals.len();
        let n = circuit.constraints.len();
        let over = n / 2 > s || (n / 2 == s && n % 2 == 1);
        if over && s > 0 {
            let mut d = String::new();
            push_str(&mut d, "Circuit may be over-constrained: ");
            push_decimal(&mut d, n as u64);
            push_str(&mut d, " constraints for ");
            push_decimal(&mut d, s as u64);
            push_str(&mut d, " signals");
            let issue = make_issue(
                IssueType::OverConstrained,
                IssueSeverity::Medium,
                owned("circuit"),
                d,
                "Review constraints for redundancy or conflicts",
            );
            push_issue(issues, issue);
            assert(issue_models(issues@) =~= issue_models(old(issues)@) + over_issues(*circuit));
        } else {
            assert(issue_models(issues@) =~= issue_models(old(issues)@) + over_issues(*circuit));
        }
    }

    /// Appends the names an expression mentions (see `names`).
    pub fn collect_signal_names(&self, expr: &Expression, out: &mut Vec<String>)
        ensures
            final(out)@.map_values(|s: String| s@) == old(out)@.map_values(|s: String| s@) + names(
                *expr,
            ),
        decreases expr,
    {
        match expr {
            Expression::Signal(name) => {
                out.push(name.clone());
                assert(out@.map_values(|s: String| s@) =~= old(out)@.map_values(|s: String| s@)
                    + names(*expr));
            },
            Expression::BinaryOp(left, _, right) => {
                self.collect_signal_names(left, out);
                self.collect_signal_names(right, out);
                assert(out@.map_values(|s: String| s@) =~= old(out)@.map_values(|s: String| s@)
                    + names(*expr));
            },
            Expression::UnaryOp(_, inner) => {
                self.collect_signal_names(inner, out);
            },
            Expression::FunctionCall(_, args) => {
                let ghost start = old(out)@.map_values(|s: String| s@);
                let mut i: usize = 0;
                proof {
                    vstd::std_specs::vec::axiom_vec_decreases_to_view(*args);
                    assert(args@.take(0) =~= Seq::<Expression>::empty());
                    assert(start + crate::circuit::constraints::args_names(args@.take(0)) =~= start);
                }
                while i < args.len()
                    invariant
                        i <= args.len(),
                        decreases_to!(*expr => *args),
                        out@.map_values(|s: String| s@) == start
                            + crate::circuit::constraints::args_names(args@.take(i as int)),
                    decreases args.len() - i,
                {
                    proof {
                        vstd::std_specs::vec::axiom_vec_index_decreases(*args, i as int);
                        assert(args@.take(i + 1).drop_last() =~= args@.take(i as int));
                    }
                    self.collect_signal_names(&args[i], out);
                    assert(out@.map_values(|s: String| s@) =~= start
                        + crate::circuit::constraints::args_names(args@.take(i + 1)));
                    i += 1;
                }
                assert(args@.take(i as int) =~= args@);
            },
            Expression::ComponentOutput(component, signal) => {
                let mut s = String::new();
                push_str(&mut s, component.as_str());
                push_str(&mut s, ".");
                push_str(&mut s, signal.as_str());
                out.push(s);
                assert(out@.map_values(|s: String| s@) =~= old(out)@.map_values(|s: String| s@)
                    + names(*expr));
            },
            Expression::Constant(_) => {
                assert(out@.map_values(|s: String| s@) =~= old(out)@.map_values(|s: String| s@)
                    + names(*expr));
            },
        }
    }

    /// Adds the issues of `unused_issues` for the names the constraints mention.
    pub fn check_unused_signals(&self, circuit: &Circuit, issues: &mut Vec<StaticIssue>)
        ensures
            issue_models(final(issues)@) == issue_models(old(issues)@) + unused_issues(
                circuit.signals@,
                used_names(circuit.constraints@),
            ),
    {
        let mut used: Vec<String> = Vec::new();
        let ghost cs = circuit.constraints@;
        let mut j: usize = 0;
        assert(cs.take(0) =~= Seq::<Constraint>::empty());
        assert(used@.map_values(|s: String| s@) =~= used_names(cs.take(0)));
        while j < circuit.constraints.len()
            invariant
                j <= circuit.constraints.len(),
                cs == circuit.constraints@,
                used@.map_values(|s: String| s@) == used_names(cs.take(j as int)),
            decreases circuit.constraints.len() - j,
        {
            proof {
                assert(cs.take(j + 1).drop_last() =~= cs.take(j as int));
            }
            self.collect_signal_names(&circuit.constraints[j].left, &mut used);
            self.collect_signal_names(&circuit.constraints[j].right, &mut used);
            j += 1;
        }
        assert(cs.take(j as int) =~= cs);
        let ghost un = used@.map_values(|s: String| s@);
        let ghost sigs = circuit.signals@;
        let mut i: usize = 0;
        assert(sigs.take(0) =~= Seq::<Signal>::empty());
        assert(issue_models(issues@) =~= issue_models(old(issues)@) + unused_issues(
            sigs.take(0),
            un,
        ));
        while i < circuit.signals.len()
            invariant
                i <= circuit.signals.len(),
                sigs == circuit.signals@,
                un == used@.map_values(|s: String| s@),
                issue_models(issues@) == issue_models(old(issues)@) + unused_issues(
                    sigs.take(i as int),
                    un,
                ),
            decreases circuit.signals.len() - i,
        {
            proof {
                assert(sigs.take(i + 1).drop_last() =~= sigs.take(i as int));
                assert(sigs.take(i + 1).last() == sigs[i as int]);
            }
            let signal = &circuit.signals[i];
            let mut found = false;
            let mut k: usize = 0;
            while k < used.len()
                invariant
                    k <= used.len(),
                    un == used@.map_values(|s: String| s@),
                    found == exists|m: int| 0 <= m < k && un[m] == signal.name@,
                decreases used.len() - k,
            {
                assert(un[k as int] == used@[k as int]@);
                if str_eq(used[k].as_str(), signal.name.as_str()) {
                    found = true;
                }
                k += 1;
            }
            proof {
                if found {
                    let m = choose|m: int| 0 <= m < k && un[m] == signal.name@;
                    assert(un.contains(signal.name@));
                }
            }
            let ghost before = issues@;
            if !found && signal.direction == SignalDirection::Intermediate {
                let mut loc = String::new();
                push_str(&mut loc, "signal: ");
                push_str(&mut loc, signal.name.as_str());
                let mut d = String::new();
                push_str(&mut d, "Signal '");
                push_str(&mut d, signal.name.as_str());
                push_str(&mut d, "' is declared but never used");
                let issue = make_issue(
                    IssueType::UnusedSignal,
                    IssueSeverity::Low,
                    loc,
                    d,
                    "Remove unused signal or use it in constraints",
                );
                push_issue(issues, issue);
            }
            assert(issue_models(issues@) =~= issue_models(old(issues)@) + unused_issues(
                sigs.take(i + 1),
                un,
            ));
            i += 1;
        }
        assert(sigs.take(i as int) =~= sigs);
    }

    /// Whether an expression is constant (see `is_const`).
    pub fn is_constant_expression(&self, expr: &Expression) -> (b: bool)
        ensures
            b == is_const(*expr),
        decreases expr,
    {
        match expr {
            Expression::Constant(_) => true,
            Expression::Signal(_) => false,
            Expression::BinaryOp(left, _, right) => self.is_constant_expression(left)
                && self.is_constant_expression(right),
            Expression::UnaryOp(_, inner) => self.is_constant_expression(inner),
            Expression::FunctionCall(_, args) => {
                let mut all = true;
                let mut i: usize = 0;
                proof {
                    vstd::std_specs::vec::axiom_vec_decreases_to_view(*args);
                    assert(args@.take(0) =~= Seq::<Expression>::empty());
                }
                while i < args.len()
                    invariant
                        i <= args.len(),
                        decreases_to!(*expr => *args),
                        all == all_const(args@.take(i as int)),
                    decreases args.len() - i,
                {
                    proof {
                        vstd::std_specs::vec::axiom_vec_index_decreases(*args, i as int);
                        assert(args@.take(i + 1).drop_last() =~= args@.take(i as int));
                    }
                    let c = self.is_constant_expression(&args[i]);
                    all = all && c;
                    i += 1;
                }
                assert(args@.take(i as int) =~= args@);
                all
            },
            Expression::ComponentOutput(_, _) => false,
        }
    }

    /// Whether an expression may divide by zero (see `div_risk`).
    pub fn contains_division_by_zero_risk(&self, expr: &Expression) -> (b: bool)
        ensures
            b == div_risk(*expr),
        decreases expr,
    {
        match expr {
            Expression::BinaryOp(_, op, right) => {
                if *op == BinaryOperator::Div {
                    match &**right {
                        Expression::Constant(val) => val.is_zero(),
                        Expression::Signal(_) => true,
                        _ => self.contains_division_by_zero_risk(right),
                    }
                } else {
                    self.contains_division_by_zero_risk(right)
                }
            },
            Expression::UnaryOp(_, inner) => self.contains_division_by_zero_risk(inner),
            Expression::FunctionCall(_, args) => {
                let mut any = false;
                let mut i: usize = 0;
                proof {
                    vstd::std_specs::vec::axiom_vec_decreases_to_view(*args);
                    assert(args@.take(0) =~= Seq::<Expression>::empty());
                }
                while i < args.len()
                    invariant
                        i <= args.len(),
                        decreases_to!(*expr => *args),
                        any == any_div_risk(args@.take(i as int)),
                    decreases args.len() - i,
                {
                    proof {
                        vstd::std_specs::vec::axiom_vec_index_decreases(*args, i as int);
                        assert(args@.take(i + 1).drop_last() =~= args@.take(i as int));
                    }
                    let r = self.contains_division_by_zero_risk(&args[i]);
                    any = any || r;
                    i += 1;
                }
                assert(args@.take(i as int) =~= args@);
                any
            },
            _ => false,
        }
    }

    /// Adds the issues of `unreachable_issues`.
    pub fn check_unreachable_constraints(&self, circuit: &Circuit, issues: &mut Vec<StaticIssue>)
        ensures
            issue_models(final(issues)@) == issue_models(old(issues)@) + unreachable_issues(
                circuit.constraints@,
            ),
    {
        let ghost cs = circuit.constraints@;
        let mut idx: usize = 0;
        assert(cs.take(0) =~= Seq::<Constraint>::empty());
        assert(issue_models(issues@) =~= issue_models(old(issues)@) + unreachable_issues(
            cs.take(0),
        ));
        while idx < circuit.constraints.len()
            invariant
                idx <= circuit.constraints.len(),
                cs == circuit.constraints@,
                issue_models(issues@) == issue_models(old(issues)@) + unreachable_issues(
                    cs.take(idx as int),
                ),
            decreases circuit.constraints.len() - idx,
        {
            proof {
                assert(cs.take(idx + 1).drop_last() =~= cs.take(idx as int));
                assert(cs.take(idx + 1).last() == cs[idx as int]);
            }
            let c = &circuit.constraints[idx];
            if self.is_constant_expression(&c.left) && self.is_constant_expression(&c.right) {
                let mut loc = String::new();
                push_str(&mut loc, "constraint: ");
                push_decimal(&mut loc, idx as u64);
                let mut d = String::new();
                push_str(&mut d, "Constraint ");
                push_decimal(&mut d, idx as u64);
                push_str(&mut d, " appears to be constant-only");
                let issue = make_issue(
                    IssueType::UnreachableConstraint,
                    IssueSeverity::Medium,
                    loc,
                    d,
                    "Review constraint for correctness",
                );
                push_issue(issues, issue);
            }
            assert(issue_models(issues@) =~= issue_models(old(issues)@) + unreachable_issues(
                cs.take(idx + 1),
            ));
            idx += 1;
        }
        assert(cs.take(idx as int) =~= cs);
    }

    /// Adds the issues of `division_issues`.
    pub fn check_division_by_zero(&self, circuit: &Circuit, issues: &mut Vec<StaticIssue>)
        ensures
            issue_models(final(issues)@) == issue_models(old(issues)@) + division_issues(
                circuit.constraints@,
            ),
    {
        let ghost cs = circuit.constraints@;
        let mut idx: usize = 0;
        assert(cs.take(0) =~= Seq::<Constraint>::empty());
        assert(issue_models(issues@) =~= issue_models(old(issues)@) + division_issues(
            cs.take(0),
        ));
        while idx < circuit.constraints.len()
            invariant
                idx <= circuit.constraints.len(),
                cs == circuit.constraints@,
                issue_models(issues@) == issue_models(old(issues)@) + division_issues(
                    cs.take(idx as int),
                ),
            decreases circuit.constraints.len() - idx,
        {
            proof {
                assert(cs.take(idx + 1).drop_last() =~= cs.take(idx as int));
                assert(cs.take(idx + 1).last() == cs[idx as int]);
            }
            let c = &circuit.constraints[idx];
            if self.contains_division_by_zero_risk(&c.left) || self.contains_division_by_zero_risk(
                &c.right,
            ) {
                let mut loc = String::new();
                push_str(&mut loc, "constraint: ");
                push_decimal(&mut loc, idx as u64);
                let mut d = String::new();
                push_str(&mut d, "Constraint ");
                push_decimal(&mut d, idx as u64);
                push_str(&mut d, " may have division by zero");
                let issue = make_issue(
                    IssueType::DivisionByZero,
                    IssueSeverity::High,
                    loc,
                    d,
                    "Add checks to ensure divisor is non-zero",
                );
                push_issue(issues, issue);
            }
            assert(issue_models(issues@) =~= issue_models(old(issues)@) + division_issues(
                cs.take(idx + 1),
            ));
            idx += 1;
        }
        assert(cs.take(idx as int) =~= cs);
    }

    /// The integer metrics of a circuit (see `metric_counts`).
    pub fn count_metrics(&self, circuit: &Circuit) -> (m: MetricCounts)
        requires
            forall|i: int|
                0 <= i < circuit.constraints@.len() ==> constraint_fits(
                    #[trigger] circuit.constraints@[i],
                ),
        ensures
            m == metric_counts(*circuit),
    {
        let extractor = crate::circuit::constraints::ConstraintExtractor::new();
        let ghost cs = circuit.constraints@;
        let mut linear: usize = 0;
        let mut quadratic: usize = 0;
        let mut constant: usize = 0;
        let mut j: usize = 0;
        assert(cs.take(0) =~= Seq::<Constraint>::empty());
        while j < circuit.constraints.len()
            invariant
                j <= circuit.constraints.len(),
                cs == circuit.constraints@,
                forall|a: int| 0 <= a < cs.len() ==> constraint_fits(#[trigger] cs[a]),
                constant == count_degree(cs.take(j as int), 0, 0),
                linear == count_degree(cs.take(j as int), 1, 1),
                quadratic == count_degree(cs.take(j as int), 2, usize::MAX as int),
                constant + linear + quadratic == j,
            decreases circuit.constraints.len() - j,
        {
            proof {
                assert(cs.take(j + 1).drop_last() =~= cs.take(j as int));
                assert(cs.take(j + 1).last() == cs[j as int]);
            }
            let c = &circuit.constraints[j];
            let d = extractor.get_expression_degree(&c.left) + extractor.get_expression_degree(&c.right);
            if d == 0 {
                constant = constant + 1;
            } else if d == 1 {
                linear = linear + 1;
            } else {
                quadratic = quadratic + 1;
            }
            j += 1;
        }
        assert(cs.take(j as int) =~= cs);
        MetricCounts {
            total_signals: circuit.signals.len(),
            input_signals: count_signals(&circuit.signals, SignalDirection::Input),
            output_signals: count_signals(&circuit.signals, SignalDirection::Output),
            witness_signals: count_signals(&circuit.signals, SignalDirection::Intermediate),
            total_constraints: circuit.constraints.len(),
            linear_constraints: linear,
            quadratic_constraints: quadratic,
            constant_constraints: constant,
            unused_signals: 0,
        }
    }

    /// The degree of an expression (see `degree`).
    pub fn get_expression_degree(&self, expr: &Expression) -> (d: usize)
        requires
            degree_fits(*expr),
        ensures
            d == degree(*expr),
    {
        crate::circuit::constraints::ConstraintExtractor::new().get_expression_degree(expr)
    }

    /// How many issues have a severity.
    pub fn count_severity(&self, issues: &Vec<StaticIssue>, s: IssueSeverity) -> (n: usize)
        ensures
            n == count_severity_of(issue_models(issues@), s),
    {
        let ghost ms = issue_models(issues@);
        let mut n: usize = 0;
        let mut i: usize = 0;
        assert(ms.take(0) =~= Seq::<IssueModel>::empty());
        while i < issues.len()
            invariant
                i <= issues.len(),
                ms == issue_models(issues@),
                n == count_severity_of(ms.take(i as int), s),
                n <= i,
            decreases issues.len() - i,
        {
            proof {
                assert(ms.take(i + 1).drop_last() =~= ms.take(i as int));
                assert(ms.take(i + 1).last() == ms[i as int]);
                assert(ms[i as int].severity == issues@[i as int].severity);
            }
            if issues[i].severity == s {
                n = n + 1;
            }
            i += 1;
        }
        assert(ms.take(i as int) =~= ms);
        n
    }
}

impl Default for StaticAnalyzer {
    fn default() -> (r: Self) {
        StaticAnalyzer::new()
    }
}

} // verus!
