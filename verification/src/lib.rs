//! Fuzzing toolkit for zero-knowledge circuits.
use crate::r1cs::parser::io_error_text;
use crate::text::{owned, push_str};
use vstd::prelude::*;

pub mod text;
pub mod bignum;
pub mod strmap;
pub mod clock;
pub mod random;
pub mod cache;
pub mod circuit;
pub mod r1cs;
pub mod reporting;
pub mod analysis;
pub mod fuzzing;
pub mod targets;
pub mod target;
pub mod dashboard;
pub mod distributed;
pub mod property_testing;
pub mod monitor;
pub mod integration;
pub mod constraint_solver;

verus! {

/// The result of a fuzzer operation.
pub type FuzzerResult<T> = Result<T, FuzzerError>;

/// The errors of the fuzzer as a whole.
#[derive(Debug)]
pub enum FuzzerError {
    Parser(String),
    ConstraintError(String),
    TCCTError(String),
    EmulationError(String),
    FuzzingError(String),
    AnalysisError(String),
    IoError(std::io::Error),
    Generic(String),
}

/// The text of an error that carries a message: its kind's label, then the message.
pub open spec fn labelled(label: Seq<char>, m: Seq<char>) -> Seq<char> {
    label + m
}

impl FuzzerError {
    /// The error as text: the kind's label and the message; an I/O error
    /// gives its label and the error's own text, of which nothing is stated.
    pub fn message(&self) -> (r: String)
        ensures
            match self {
                FuzzerError::Parser(m) => r@ == labelled("Parser error: "@, m@),
                FuzzerError::ConstraintError(m) => r@ == labelled("Constraint error: "@, m@),
                FuzzerError::TCCTError(m) => r@ == labelled("TCCT error: "@, m@),
                FuzzerError::EmulationError(m) => r@ == labelled("Emulation error: "@, m@),
                FuzzerError::FuzzingError(m) => r@ == labelled("Fuzzing error: "@, m@),
                FuzzerError::AnalysisError(m) => r@ == labelled("Analysis error: "@, m@),
                FuzzerError::IoError(_) => r@.len() >= 11 && r@.subrange(0, 11) == "I/O error: "@,
                FuzzerError::Generic(m) => r@ == labelled("Error: "@, m@),
            },
    {
        let (label, m) = match self {
            FuzzerError::Parser(m) => ("Parser error: ", m.clone()),
            FuzzerError::ConstraintError(m) => ("Constraint error: ", m.clone()),
            FuzzerError::TCCTError(m) => ("TCCT error: ", m.clone()),
            FuzzerError::EmulationError(m) => ("Emulation error: ", m.clone()),
            FuzzerError::FuzzingError(m) => ("Fuzzing error: ", m.clone()),
            FuzzerError::AnalysisError(m) => ("Analysis error: ", m.clone()),
            FuzzerError::IoError(e) => ("I/O error: ", io_error_text(e)),
            FuzzerError::Generic(m) => ("Error: ", m.clone()),
        };
        let mut r = owned(label);
        push_str(&mut r, m.as_str());
        proof {
            reveal_strlit("I/O error: ");
        }
        r
    }
}

impl From<std::io::Error> for FuzzerError {
    /// An I/O error becomes the fuzzer's I/O error.
    fn from(err: std::io::Error) -> (r: Self) {
        FuzzerError::IoError(err)
    }
}

impl vstd::std_specs::convert::FromSpecImpl<std::io::Error> for FuzzerError {
    open spec fn obeys_from_spec() -> bool {
        true
    }

    open spec fn from_spec(err: std::io::Error) -> Self {
        FuzzerError::IoError(err)
    }
}

} // verus!
