//! The circuit model of the rank-one constraint tools, and a character
//! cursor over circuit source text.
use crate::bignum::BigNum;
use crate::text::{is_unicode_whitespace, is_whitespace_char, owned, push_str};
use vstd::prelude::*;

verus! {

/// A parsed Circom circuit.
#[derive(Debug, Clone)]
pub struct CircomCircuit {
    pub name: String,
    pub templates: Vec<TemplateDefinition>,
    pub components: Vec<ComponentDefinition>,
    pub signals: Vec<SignalDefinition>,
    pub constraints: Vec<Constraint>,
}

/// A template definition.
#[derive(Debug, Clone)]
pub struct TemplateDefinition {
    pub name: String,
    pub parameters: Vec<String>,
    pub body: String,
}

/// A component definition.
#[derive(Debug, Clone)]
pub struct ComponentDefinition {
    pub name: String,
    pub template_name: String,
    pub arguments: Vec<String>,
}

/// A signal definition with its tags.
#[derive(Debug, Clone)]
pub struct SignalDefinition {
    pub name: String,
    pub direction: SignalDirection,
    pub tags: Vec<String>,
}

/// Which way a signal flows.
#[derive(Debug, Clone, Copy, PartialEq, Eq, Structural)]
pub enum SignalDirection {
    Input,
    Output,
    Intermediate,
}

/// A constraint between two expressions, with an optional output signal.
#[derive(Debug, Clone)]
pub struct Constraint {
    pub left: Expression,
    pub right: Expression,
    pub output: Option<String>,
}

/// An arithmetic expression over signals and numbers.
#[derive(Debug)]
pub enum Expression {
    Signal(String),
    Number(BigNum),
    Addition(Box<Expression>, Box<Expression>),
    Subtraction(Box<Expression>, Box<Expression>),
    Multiplication(Box<Expression>, Box<Expression>),
    SubtractionResult(Box<Expression>, Box<Expression>),
}

/// Whether two expressions have the same shape, signal names and numbers.
pub open spec fn same_expression(a: Expression, b: Expression) -> bool
    decreases a,
{
    match a {
        Expression::Signal(x) => match b {
            Expression::Signal(y) => y@ == x@,
            _ => false,
        },
        Expression::Number(x) => match b {
            Expression::Number(y) => y@ == x@,
            _ => false,
        },
        Expression::Addition(l, r) => match b {
            Expression::Addition(l2, r2) => same_expression(*l, *l2) && same_expression(*r, *r2),
            _ => false,
        },
        Expression::Subtraction(l, r) => match b {
            Expression::Subtraction(l2, r2) => same_expression(*l, *l2) && same_expression(*r, *r2),
            _ => false,
        },
        Expression::Multiplication(l, r) => match b {
            Expression::Multiplication(l2, r2) => same_expression(*l, *l2) && same_expression(*r, *r2),
            _ => false,
        },
        Expression::SubtractionResult(l, r) => match b {
            Expression::SubtractionResult(l2, r2) => same_expression(*l, *l2) && same_expression(*r, *r2),
            _ => false,
        },
    }
}

/// A deep copy of an expression.
pub fn clone_expression(e: &Expression) -> (r: Expression)
    ensures
        same_expression(*e, r),
    decreases e,
{
    match e {
        Expression::Signal(s) => Expression::Signal(s.clone()),
        Expression::Number(n) => Expression::Number(n.clone()),
        Expression::Addition(l, r) => Expression::Addition(
            Box::new(clone_expression(l)),
            Box::new(clone_expression(r)),
        ),
        Expression::Subtraction(l, r) => Expression::Subtraction(
            Box::new(clone_expression(l)),
            Box::new(clone_expression(r)),
        ),
        Expression::Multiplication(l, r) => Expression::Multiplication(
            Box::new(clone_expression(l)),
            Box::new(clone_expression(r)),
        ),
        Expression::SubtractionResult(l, r) => Expression::SubtractionResult(
            Box::new(clone_expression(l)),
            Box::new(clone_expression(r)),
        ),
    }
}

impl Clone for Expression {
    fn clone(&self) -> Self {
        clone_expression(self)
    }
}

#[verifier::external_type_specification]
#[verifier::external_body]
pub struct ExIoError(std::io::Error);

/// Why parsing failed.
#[derive(Debug)]
pub enum ParseError {
    IoError(std::io::Error),
    SyntaxError(String),
    UnsupportedFeature(String),
}

/// `<std::io::Error as Display>::fmt`: the error's text (it may come from
/// the operating system, so nothing is stated of it).
#[verifier::external_body]
pub(crate) fn io_error_text(e: &std::io::Error) -> String {
    e.to_string()
}

impl ParseError {
    /// The error as text.
    pub fn message(&self) -> (r: String)
        ensures
            match self {
                ParseError::IoError(_) => r@.len() >= 10 && r@.subrange(0, 10) == "IO error: "@,
                ParseError::SyntaxError(m) => r@ == "Syntax error: "@ + m@,
                ParseError::UnsupportedFeature(m) => r@ == "Unsupported feature: "@ + m@,
            },
    {
        let mut r = String::new();
        match self {
            ParseError::IoError(e) => {
                push_str(&mut r, "IO error: ");
                let t = io_error_text(e);
                let ghost head = r@;
                push_str(&mut r, t.as_str());
                proof {
                    reveal_strlit("IO error: ");
                    assert(r@.subrange(0, 10) =~= head);
                }
            },
            ParseError::SyntaxError(m) => {
                push_str(&mut r, "Syntax error: ");
                push_str(&mut r, m.as_str());
                assert(r@ =~= "Syntax error: "@ + m@);
            },
            ParseError::UnsupportedFeature(m) => {
                push_str(&mut r, "Unsupported feature: ");
                push_str(&mut r, m.as_str());
                assert(r@ =~= "Unsupported feature: "@ + m@);
            },
        }
        r
    }
}

/// The number of bytes of the UTF-8 encoding of a text.
pub open spec fn utf8_len(s: Seq<char>) -> nat {
    vstd::utf8::encode_utf8(s).len()
}

/// A cursor over circuit source text. Its position counts characters, and
/// it advances while the position is below the text's length in bytes.
#[derive(Debug)]
pub struct CircomParser {
    source: String,
    position: usize,
}

/// The character at a position, if the text has one there.
pub open spec fn char_at_index(s: Seq<char>, i: int) -> Option<char> {
    if 0 <= i < s.len() {
        Some(s[i])
    } else {
        None
    }
}

impl CircomParser {
    #[verifier::type_invariant]
    spec fn cursor_ok(self) -> bool {
        self.position <= utf8_len(self.source@)
    }

    /// The source text.
    pub closed spec fn source_text(self) -> Seq<char> {
        self.source@
    }

    /// The cursor position, in characters.
    pub closed spec fn pos(self) -> nat {
        self.position as nat
    }

    /// A parser over `source`, at its start.
    pub fn new(source: String) -> (p: Self)
        ensures
            p.source_text() == source@,
            p.pos() == 0,
    {
        CircomParser { source, position: 0 }
    }

    /// The source text.
    pub fn source(&self) -> (s: &str)
        ensures
            s@ == self.source_text(),
    {
        self.source.as_str()
    }

    /// Parses the circuit. This parser knows no syntax yet: every text gives
    /// the circuit named `parsed_circuit` with nothing in it.
    pub fn parse(&mut self) -> (r: Result<CircomCircuit, ParseError>)
        ensures
            r matches Ok(c) && c.name@ == "parsed_circuit"@ && c.templates@.len() == 0
                && c.components@.len() == 0 && c.signals@.len() == 0 && c.constraints@.len() == 0,
            final(self).source_text() == old(self).source_text(),
            final(self).pos() == old(self).pos(),
    {
        Ok(
            CircomCircuit {
                name: owned("parsed_circuit"),
                templates: Vec::new(),
                components: Vec::new(),
                signals: Vec::new(),
                constraints: Vec::new(),
            },
        )
    }

    /// The character at position `i` of the source, if any.
    fn nth_char(&self, i: usize) -> (r: Option<char>)
        ensures
            r == char_at_index(self.source_text(), i as int),
    {
        let mut k: usize = 0;
        for c in it: self.source.chars()
            invariant
                k == it.index(),
                it.seq() == self.source@,
                k <= i,
        {
            if k == i {
                return Some(c);
            }
            k += 1;
        }
        None
    }

    /// The character under the cursor.
    pub fn current_char(&self) -> (r: Option<char>)
        ensures
            r == char_at_index(self.source_text(), self.pos() as int),
    {
        self.nth_char(self.position)
    }

    /// Moves past the character under the cursor and returns it, if the
    /// position is below the source's length in bytes; else stays.
    pub fn advance(&mut self) -> (r: Option<char>)
        ensures
            final(self).source_text() == old(self).source_text(),
            old(self).pos() < (utf8_len(old(self).source_text()) as usize) ==> final(self).pos()
                == old(self).pos() + 1 && r == char_at_index(
                old(self).source_text(),
                old(self).pos() as int,
            ),
            old(self).pos() >= (utf8_len(old(self).source_text()) as usize) ==> final(self).pos()
                == old(self).pos() && r is None,
    {
        proof {
            lemma_cast_below(utf8_len(self.source@));
        }
        if self.position < self.source.as_str().len() {
            let ch = self.current_char();
            self.position = self.position + 1;
            ch
        } else {
            None
        }
    }

    /// Advances past white space characters.
    pub fn skip_whitespace(&mut self)
        requires
            utf8_len(old(self).source_text()) <= usize::MAX,
        ensures
            final(self).source_text() == old(self).source_text(),
            old(self).pos() <= final(self).pos(),
            forall|i: int|
                old(self).pos() <= i < final(self).pos() ==> is_unicode_whitespace(
                    #[trigger] old(self).source_text()[i],
                ),
            match char_at_index(final(self).source_text(), final(self).pos() as int) {
                Some(c) => !is_unicode_whitespace(c),
                None => true,
            },
    {
        let ghost start = self.pos();
        loop
            invariant
                self.source_text() == old(self).source_text(),
                utf8_len(self.source_text()) <= usize::MAX,
                start == old(self).pos(),
                start <= self.pos(),
                forall|i: int|
                    start <= i < self.pos() ==> is_unicode_whitespace(
                        #[trigger] old(self).source_text()[i],
                    ),
            ensures
                match char_at_index(self.source_text(), self.pos() as int) {
                    Some(c) => !is_unicode_whitespace(c),
                    None => true,
                },
            decreases utf8_len(self.source_text()) - self.pos(),
        {
            proof {
                use_type_invariant(&*self);
            }
            match self.current_char() {
                Some(ch) => {
                    if is_whitespace_char(ch) {
                        proof {
                            lemma_utf8_len_above_count(self.source_text());
                        }
                        self.advance();
                    } else {
                        break;
                    }
                },
                None => {
                    break;
                },
            }
        }
    }

    /// The character just after the cursor, if any.
    pub fn peek(&self) -> (r: Option<char>)
        requires
            utf8_len(self.source_text()) <= usize::MAX,
        ensures
            r == char_at_index(self.source_text(), self.pos() as int + 1),
    {
        proof {
            use_type_invariant(self);
            lemma_utf8_len_above_count(self.source@);
        }
        if self.position == usize::MAX {
            None
        } else {
            self.nth_char(self.position + 1)
        }
    }
}

/// A text has at least as many bytes as characters.
pub proof fn lemma_utf8_len_above_count(s: Seq<char>)
    ensures
        utf8_len(s) >= s.len(),
    decreases s.len(),
{
    if s.len() > 0 {
        lemma_utf8_len_above_count(s.drop_first());
        assert(vstd::utf8::encode_scalar(s[0] as u32).len() >= 1);
    }
}

/// A length cast to `usize` is at most the length.
proof fn lemma_cast_below(n: nat)
    ensures
        (n as usize) as int <= n,
{
}

} // verus!
