//! The circuit syntax tree and the parser for the circuit header grammar.
//!
//! The parser reads the outline of a Circom template: optional white space,
//! an optional `template` keyword, a name of ASCII letters, a parameter list
//! in parentheses holding nothing or two names separated by a comma, and an
//! empty body in braces. Whatever follows the body is ignored.
use crate::bignum::BigNum;
use crate::text::{debug_quoted, debug_str, is_ascii_alpha, is_multispace, push_str, string_from_chars, chars_of};
use vstd::prelude::*;

verus! {

/// A parsed circuit.
#[derive(Debug, Clone)]
pub struct Circuit {
    pub name: String,
    pub templates: Vec<Template>,
    pub components: Vec<Component>,
    pub signals: Vec<Signal>,
    pub constraints: Vec<Constraint>,
}

/// A template definition.
#[derive(Debug, Clone)]
pub struct Template {
    pub name: String,
    pub parameters: Vec<Parameter>,
    pub signals: Vec<Signal>,
    pub components: Vec<Component>,
    pub constraints: Vec<Constraint>,
}

/// A signal definition.
#[derive(Debug, Clone)]
pub struct Signal {
    pub name: String,
    pub direction: SignalDirection,
    pub signal_type: SignalType,
    pub dimensions: Vec<usize>,
}

/// Which way a signal flows.
#[derive(Debug, Clone, Copy, PartialEq, Eq, Structural)]
pub enum SignalDirection {
    Input,
    Output,
    Intermediate,
}

/// What values a signal holds.
#[derive(Debug, Clone, Copy, PartialEq, Eq, Structural)]
pub enum SignalType {
    Field,
    Binary,
}

/// A component instance.
#[derive(Debug, Clone)]
pub struct Component {
    pub name: String,
    pub template_name: String,
    pub parameters: Vec<Expression>,
    pub signals: Vec<SignalConnection>,
}

/// A wire between a component's signal and an outer signal.
#[derive(Debug, Clone)]
pub struct SignalConnection {
    pub component_signal: String,
    pub external_signal: String,
}

/// A constraint between two expressions.
#[derive(Debug, Clone)]
pub struct Constraint {
    pub left: Expression,
    pub right: Expression,
    pub constraint_type: ConstraintType,
}

/// The kind of a constraint.
#[derive(Debug, Clone, Copy, PartialEq, Eq, Structural)]
pub enum ConstraintType {
    Equality,
    Assignment,
    SignalAssignment,
}

/// An expression of the circuit language.
#[derive(Debug)]
pub enum Expression {
    Constant(BigNum),
    Signal(String),
    BinaryOp(Box<Expression>, BinaryOperator, Box<Expression>),
    UnaryOp(UnaryOperator, Box<Expression>),
    FunctionCall(String, Vec<Expression>),
    ComponentOutput(String, String),
}

/// Whether two expressions have the same shape, operators, names and numbers.
pub open spec fn same_expression(a: Expression, b: Expression) -> bool
    decreases a,
{
    match a {
        Expression::Constant(x) => match b {
            Expression::Constant(y) => y@ == x@,
            _ => false,
        },
        Expression::Signal(x) => match b {
            Expression::Signal(y) => y@ == x@,
            _ => false,
        },
        Expression::BinaryOp(l, op, r) => match b {
            Expression::BinaryOp(l2, op2, r2) => op2 == op && same_expression(*l, *l2)
                && same_expression(*r, *r2),
            _ => false,
        },
        Expression::UnaryOp(op, inner) => match b {
            Expression::UnaryOp(op2, inner2) => op2 == op && same_expression(*inner, *inner2),
            _ => false,
        },
        Expression::FunctionCall(f, args) => match b {
            Expression::FunctionCall(g, args2) => {
                proof {
                    vstd::std_specs::vec::axiom_vec_decreases_to_view(args);
                }
                g@ == f@ && same_arguments(args@, args2@)
            },
            _ => false,
        },
        Expression::ComponentOutput(c, s) => match b {
            Expression::ComponentOutput(c2, s2) => c2@ == c@ && s2@ == s@,
            _ => false,
        },
    }
}

/// Whether two argument lists are pairwise the same expressions.
pub open spec fn same_arguments(a: Seq<Expression>, b: Seq<Expression>) -> bool
    decreases a,
{
    a.len() == b.len() && (a.len() == 0 || (same_arguments(a.drop_last(), b.drop_last())
        && same_expression(a.last(), b.last())))
}

/// A deep copy of an expression.
pub fn clone_expression(e: &Expression) -> (r: Expression)
    ensures
        same_expression(*e, r),
    decreases e,
{
    match e {
        Expression::Constant(n) => Expression::Constant(n.clone()),
        Expression::Signal(s) => Expression::Signal(s.clone()),
        Expression::BinaryOp(l, op, r) => Expression::BinaryOp(
            Box::new(clone_expression(l)),
            *op,
            Box::new(clone_expression(r)),
        ),
        Expression::UnaryOp(op, inner) => Expression::UnaryOp(*op, Box::new(clone_expression(inner))),
        Expression::FunctionCall(f, args) => {
            let mut v: Vec<Expression> = Vec::new();
            let mut i: usize = 0;
            assert(decreases_to!(*e => *args));
            assert(args@.take(0) =~= Seq::<Expression>::empty());
            while i < args.len()
                invariant
                    i <= args.len(),
                    decreases_to!(*e => *args),
                    same_arguments(args@.take(i as int), v@),
                decreases args.len() - i,
            {
                proof {
                    vstd::std_specs::vec::axiom_vec_index_decreases(*args, i as int);
                }
                let c = clone_expression(&args[i]);
                let ghost before = v@;
                v.push(c);
                assert(args@.take(i + 1).drop_last() =~= args@.take(i as int));
                assert(v@.drop_last() =~= before);
                i += 1;
            }
            assert(args@.take(i as int) =~= args@);
            Expression::FunctionCall(f.clone(), v)
        },
        Expression::ComponentOutput(c, s) => Expression::ComponentOutput(c.clone(), s.clone()),
    }
}

impl Clone for Expression {
    fn clone(&self) -> Self {
        clone_expression(self)
    }
}

/// Binary operators.
#[derive(Debug, Clone, Copy, PartialEq, Eq, Structural)]
pub enum BinaryOperator {
    Add,
    Sub,
    Mul,
    Div,
    Pow,
    And,
    Or,
    Xor,
    Eq,
    Neq,
    Lt,
    Gt,
    Lte,
    Gte,
}

/// Unary operators.
#[derive(Debug, Clone, Copy, PartialEq, Eq, Structural)]
pub enum UnaryOperator {
    Neg,
    Not,
    Complement,
}

/// A template parameter.
#[derive(Debug, Clone)]
pub struct Parameter {
    pub name: String,
    pub default_value: Option<BigNum>,
}

/// Which step of the grammar refused the input: a name (letters expected)
/// or a fixed piece of text.
#[derive(Debug, Clone, Copy, PartialEq, Eq, Structural)]
pub enum ParseFailure {
    Alpha,
    Tag,
}

/// The name a failing step goes by in error messages.
pub open spec fn failure_name(f: ParseFailure) -> Seq<char> {
    match f {
        ParseFailure::Alpha => "Alpha"@,
        ParseFailure::Tag => "Tag"@,
    }
}

/// The end of the run of multi-space characters that starts at `i`.
pub open spec fn ws_end(s: Seq<char>, i: int) -> int
    decreases s.len() - i,
{
    if 0 <= i < s.len() && is_multispace(s[i]) {
        ws_end(s, i + 1)
    } else {
        i
    }
}

/// The end of the run of ASCII letters that starts at `i`.
pub open spec fn alpha_end(s: Seq<char>, i: int) -> int
    decreases s.len() - i,
{
    if 0 <= i < s.len() && is_ascii_alpha(s[i]) {
        alpha_end(s, i + 1)
    } else {
        i
    }
}

/// Whether `s` holds `t` at position `i`.
pub open spec fn has_text_at(s: Seq<char>, i: int, t: Seq<char>) -> bool {
    0 <= i && i + t.len() <= s.len() && s.subrange(i, i + t.len()) == t
}

/// Whether `s` holds the character `c` at position `i`.
pub open spec fn has_char_at(s: Seq<char>, i: int, c: char) -> bool {
    0 <= i < s.len() && s[i] == c
}

/// Where the parameter list's contents end, starting at `i` (just after the
/// opening parenthesis): after `name,name` if that stands there, else at `i`.
pub open spec fn params_end(s: Seq<char>, i: int) -> int {
    let a = alpha_end(s, i);
    if a > i && has_char_at(s, a, ',') && alpha_end(s, a + 1) > a + 1 {
        alpha_end(s, a + 1)
    } else {
        i
    }
}

/// The grammar: the template name, or where and at which step parsing stops.
pub open spec fn parse_header(s: Seq<char>) -> Result<Seq<char>, (int, ParseFailure)> {
    let i0 = ws_end(s, 0);
    let i1 = if has_text_at(s, i0, "template"@) {
        i0 + 8
    } else {
        i0
    };
    let i2 = ws_end(s, i1);
    let j = alpha_end(s, i2);
    if j == i2 {
        Err((i2, ParseFailure::Alpha))
    } else {
        let i3 = ws_end(s, j);
        if !has_char_at(s, i3, '(') {
            Err((i3, ParseFailure::Tag))
        } else {
            let i5 = params_end(s, i3 + 1);
            if !has_char_at(s, i5, ')') {
                Err((i5, ParseFailure::Tag))
            } else {
                let i6 = ws_end(s, i5 + 1);
                if !has_char_at(s, i6, '{') {
                    Err((i6, ParseFailure::Tag))
                } else {
                    let i7 = ws_end(s, i6 + 1);
                    if !has_char_at(s, i7, '}') {
                        Err((i7, ParseFailure::Tag))
                    } else {
                        Ok(s.subrange(i2, j))
                    }
                }
            }
        }
    }
}

/// The message of a parse failure at position `at` of `s`.
pub open spec fn parse_failure_message(s: Seq<char>, at: int, f: ParseFailure) -> Seq<char> {
    "Failed to parse circuit: Error(Error { input: "@ + debug_quoted(s.skip(at)) + ", code: "@
        + failure_name(f) + " })"@
}

proof fn lemma_ws_end_bounds(s: Seq<char>, i: int)
    requires
        0 <= i <= s.len(),
    ensures
        i <= ws_end(s, i) <= s.len(),
    decreases s.len() - i,
{
    if i < s.len() && is_multispace(s[i]) {
        lemma_ws_end_bounds(s, i + 1);
    }
}

proof fn lemma_alpha_end_bounds(s: Seq<char>, i: int)
    requires
        0 <= i <= s.len(),
    ensures
        i <= alpha_end(s, i) <= s.len(),
    decreases s.len() - i,
{
    if i < s.len() && is_ascii_alpha(s[i]) {
        lemma_alpha_end_bounds(s, i + 1);
    }
}

fn skip_ws(cs: &Vec<char>, i: usize) -> (j: usize)
    requires
        i <= cs.len(),
    ensures
        j == ws_end(cs@, i as int),
        i <= j <= cs.len(),
{
    let mut j = i;
    while j < cs.len() && (cs[j] == ' ' || cs[j] == '\t' || cs[j] == '\r' || cs[j] == '\n')
        invariant
            i <= j <= cs.len(),
            ws_end(cs@, j as int) == ws_end(cs@, i as int),
        decreases cs.len() - j,
    {
        j += 1;
    }
    j
}

fn skip_alpha(cs: &Vec<char>, i: usize) -> (j: usize)
    requires
        i <= cs.len(),
    ensures
        j == alpha_end(cs@, i as int),
        i <= j <= cs.len(),
{
    let mut j = i;
    while j < cs.len() && (('a' <= cs[j] && cs[j] <= 'z') || ('A' <= cs[j] && cs[j] <= 'Z'))
        invariant
            i <= j <= cs.len(),
            alpha_end(cs@, j as int) == alpha_end(cs@, i as int),
        decreases cs.len() - j,
    {
        j += 1;
    }
    j
}

fn char_at(cs: &Vec<char>, i: usize, c: char) -> (b: bool)
    ensures
        b == has_char_at(cs@, i as int, c),
{
    i < cs.len() && cs[i] == c
}

fn keyword_at(cs: &Vec<char>, i: usize) -> (b: bool)
    requires
        i <= cs.len(),
    ensures
        b == has_text_at(cs@, i as int, "template"@),
        b ==> i + 8 <= cs.len(),
{
    proof {
        reveal_strlit("template");
    }
    if cs.len() - i < 8 {
        return false;
    }
    let b = cs[i] == 't' && cs[i + 1] == 'e' && cs[i + 2] == 'm' && cs[i + 3] == 'p' && cs[i + 4]
        == 'l' && cs[i + 5] == 'a' && cs[i + 6] == 't' && cs[i + 7] == 'e';
    let ghost sub = cs@.subrange(i as int, i + 8);
    proof {
        if b {
            assert(sub =~= "template"@);
        } else if sub == "template"@ {
            assert(sub[0] == 't' && sub[1] == 'e' && sub[2] == 'm' && sub[3] == 'p');
            assert(sub[4] == 'l' && sub[5] == 'a' && sub[6] == 't' && sub[7] == 'e');
        }
    }
    b
}

/// Parser for Circom circuits.
#[derive(Debug)]
pub struct CircomParser {}

/// Why parsing failed.
#[derive(Debug, Clone)]
pub enum ParserError {
    IOError(String),
    ParseError(String),
    InvalidSyntax(String),
}

impl ParserError {
    /// The error as text: its kind and its message.
    pub fn message(&self) -> (r: String)
        ensures
            r@ == match self {
                ParserError::IOError(m) => "IO error: "@ + m@,
                ParserError::ParseError(m) => "Parse error: "@ + m@,
                ParserError::InvalidSyntax(m) => "Invalid syntax: "@ + m@,
            },
    {
        let mut r = String::new();
        match self {
            ParserError::IOError(m) => {
                push_str(&mut r, "IO error: ");
                push_str(&mut r, m.as_str());
            },
            ParserError::ParseError(m) => {
                push_str(&mut r, "Parse error: ");
                push_str(&mut r, m.as_str());
            },
            ParserError::InvalidSyntax(m) => {
                push_str(&mut r, "Invalid syntax: ");
                push_str(&mut r, m.as_str());
            },
        }
        assert(r@ =~= match self {
            ParserError::IOError(m) => "IO error: "@ + m@,
            ParserError::ParseError(m) => "Parse error: "@ + m@,
            ParserError::InvalidSyntax(m) => "Invalid syntax: "@ + m@,
        });
        r
    }
}

impl CircomParser {
    /// A parser.
    pub fn new() -> (p: Self) {
        CircomParser {  }
    }

    /// Parses the header grammar; on failure, gives the position in the
    /// input's characters where the failing step began, and the step.
    fn parse_circuit(&self, cs: &Vec<char>) -> (r: Result<Circuit, (usize, ParseFailure)>)
        ensures
            match parse_header(cs@) {
                Ok(name) => r matches Ok(c) && c.name@ == name && c.templates@.len() == 0
                    && c.components@.len() == 0 && c.signals@.len() == 0 && c.constraints@.len()
                    == 0,
                Err((at, f)) => r matches Err((p, g)) && p == at && g == f && 0 <= at <= cs@.len(),
            },
    {
        let s = Ghost(cs@);
        let i0 = skip_ws(cs, 0);
        let i1 = if keyword_at(cs, i0) {
            i0 + 8
        } else {
            i0
        };
        let i2 = skip_ws(cs, i1);
        let j = skip_alpha(cs, i2);
        if j == i2 {
            return Err((i2, ParseFailure::Alpha));
        }
        let i3 = skip_ws(cs, j);
        if !char_at(cs, i3, '(') {
            return Err((i3, ParseFailure::Tag));
        }
        let a = skip_alpha(cs, i3 + 1);
        let mut i5 = i3 + 1;
        if a > i3 + 1 && char_at(cs, a, ',') {
            let b = skip_alpha(cs, a + 1);
            if b > a + 1 {
                i5 = b;
            }
        }
        assert(i5 == params_end(s@, i3 + 1));
        if !char_at(cs, i5, ')') {
            return Err((i5, ParseFailure::Tag));
        }
        let i6 = skip_ws(cs, i5 + 1);
        if !char_at(cs, i6, '{') {
            return Err((i6, ParseFailure::Tag));
        }
        let i7 = skip_ws(cs, i6 + 1);
        if !char_at(cs, i7, '}') {
            return Err((i7, ParseFailure::Tag));
        }
        let mut name = String::new();
        let mut k = i2;
        while k < j
            invariant
                i2 <= k <= j,
                j <= cs.len(),
                name@ == cs@.subrange(i2 as int, k as int),
            decreases j - k,
        {
            crate::text::push_char(&mut name, cs[k]);
            assert(name@ =~= cs@.subrange(i2 as int, k + 1));
            k += 1;
        }
        Ok(
            Circuit {
                name,
                templates: Vec::new(),
                components: Vec::new(),
                signals: Vec::new(),
                constraints: Vec::new(),
            },
        )
    }

    /// Parses a circuit from its text: the template's name, with no
    /// templates, components, signals or constraints; or the error that
    /// names where and at which step the grammar stopped.
    pub fn parse(&self, input: &str) -> (r: Result<Circuit, ParserError>)
        ensures
            match parse_header(input@) {
                Ok(name) => r matches Ok(c) && c.name@ == name && c.templates@.len() == 0
                    && c.components@.len() == 0 && c.signals@.len() == 0 && c.constraints@.len()
                    == 0,
                Err((at, f)) => r matches Err(ParserError::ParseError(m)) && m@
                    == parse_failure_message(input@, at, f),
            },
    {
        let cs = chars_of(input);
        match self.parse_circuit(&cs) {
            Ok(c) => Ok(c),
            Err((at, f)) => {
                let rest = string_from_chars(&cs, at);
                let mut m = String::new();
                push_str(&mut m, "Failed to parse circuit: Error(Error { input: ");
                let q = debug_str(rest.as_str());
                push_str(&mut m, q.as_str());
                push_str(&mut m, ", code: ");
                match f {
                    ParseFailure::Alpha => push_str(&mut m, "Alpha"),
                    ParseFailure::Tag => push_str(&mut m, "Tag"),
                }
                push_str(&mut m, " })");
                assert(m@ =~= parse_failure_message(input@, at as int, f));
                Err(ParserError::ParseError(m))
            },
        }
    }
}

impl Default for CircomParser {
    fn default() -> (p: Self) {
        CircomParser::new()
    }
}

} // verus!
