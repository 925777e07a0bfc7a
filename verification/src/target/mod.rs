//! Circuit targets of the supported proof systems: what every target
//! reports about itself, and the target type a file extension names.
use crate::target::halo2::Halo2Circuit;
use crate::text::{file_stem_of, owned, push_str};
use vstd::prelude::*;

pub mod halo2;

verus! {

/// A circuit of some proof system that can be fuzzed.
pub trait ZKTarget {
    /// The circuit's name.
    fn name(&self) -> &str;

    /// The number of public inputs.
    fn public_input_count(&self) -> usize;

    /// The number of private inputs.
    fn private_input_count(&self) -> usize;

    /// The number of constraints.
    fn constraint_count(&self) -> usize;

    /// Whether an input is valid for the circuit.
    fn validate_input(&self, input: &[u8]) -> Result<bool, String>;

    /// A random input for the circuit.
    fn generate_random_input(&self) -> Vec<u8>;

    /// Facts about the circuit.
    fn metadata(&self) -> CircuitMetadata;
}

/// Facts about a circuit.
#[derive(Debug, Clone)]
pub struct CircuitMetadata {
    pub name: String,
    pub target_type: String,
    pub public_inputs: usize,
    pub private_inputs: usize,
    pub constraints: usize,
    pub wires: usize,
    pub gates: usize,
    pub version: String,
}

/// The proof systems.
#[derive(Debug, Clone, Copy, PartialEq, Eq, Structural)]
pub enum TargetType {
    Circom,
    Gnark,
    Halo2,
    Noir,
}

/// The target type a file extension names, if any.
pub open spec fn target_for(ext: Seq<char>) -> Option<TargetType> {
    if ext == "circom"@ {
        Some(TargetType::Circom)
    } else if ext == "go"@ || ext == "gnark"@ {
        Some(TargetType::Gnark)
    } else if ext == "rs"@ || ext == "halo2"@ {
        Some(TargetType::Halo2)
    } else if ext == "nr"@ {
        Some(TargetType::Noir)
    } else {
        None
    }
}

/// The name of a target type.
pub open spec fn target_name(t: TargetType) -> Seq<char> {
    match t {
        TargetType::Circom => "circom"@,
        TargetType::Gnark => "gnark"@,
        TargetType::Halo2 => "halo2"@,
        TargetType::Noir => "noir"@,
    }
}

impl TargetType {
    /// The target type a file extension names (see `target_for`).
    pub fn from_extension(ext: &str) -> (r: Option<TargetType>)
        ensures
            r == target_for(ext@),
    {
        if crate::strmap::str_eq(ext, "circom") {
            Some(TargetType::Circom)
        } else if crate::strmap::str_eq(ext, "go") || crate::strmap::str_eq(ext, "gnark") {
            Some(TargetType::Gnark)
        } else if crate::strmap::str_eq(ext, "rs") || crate::strmap::str_eq(ext, "halo2") {
            Some(TargetType::Halo2)
        } else if crate::strmap::str_eq(ext, "nr") {
            Some(TargetType::Noir)
        } else {
            None
        }
    }

    /// The name of the target type.
    pub fn as_str(&self) -> (r: &'static str)
        ensures
            r@ == target_name(*self),
    {
        match self {
            TargetType::Circom => "circom",
            TargetType::Gnark => "gnark",
            TargetType::Halo2 => "halo2",
            TargetType::Noir => "noir",
        }
    }
}

/// A target type's name names it again as an extension, except Noir's:
/// Noir files end in `nr`, not `noir`.
pub proof fn lemma_target_name_roundtrip(t: TargetType)
    ensures
        t != TargetType::Noir ==> target_for(target_name(t)) == Some(t),
        t == TargetType::Noir ==> target_for(target_name(t)) is None,
{
    reveal_strlit("circom");
    reveal_strlit("go");
    reveal_strlit("gnark");
    reveal_strlit("rs");
    reveal_strlit("halo2");
    reveal_strlit("nr");
    reveal_strlit("noir");
    assert("circom"@.len() == 6 && "go"@.len() == 2 && "gnark"@.len() == 5 && "rs"@.len() == 2
        && "halo2"@.len() == 5 && "nr"@.len() == 2 && "noir"@.len() == 4);
    assert("gnark"@[0] == 'g' && "halo2"@[0] == 'h');
}

/// The extension of a path as `std::path::Path::extension` finds it: the
/// part of the final component after its last dot, if there is one.
pub uninterp spec fn extension_of(path: Seq<char>) -> Option<Seq<char>>;

/// `Path::new(path).extension()`, as text (an extension taken from text is
/// always valid text).
#[verifier::external_body]
fn path_extension(path: &str) -> (r: Option<String>)
    ensures
        match extension_of(path@) {
            Some(e) => r matches Some(x) && x@ == e,
            None => r is None,
        },
{
    std::path::Path::new(path).extension().and_then(|s| s.to_str()).map(|s| s.to_string())
}

/// The text of the error for an extension that names no target type.
pub open spec fn unsupported_message(ext: Seq<char>) -> Seq<char> {
    "Unsupported target type: "@ + ext
}

/// The text of the error for a target type whose circuits no loader reads.
pub open spec fn no_loader_message(t: TargetType) -> Seq<char> {
    "No loader for "@ + target_name(t) + " targets"@
}

/// Makes targets from files.
pub struct TargetFactory;

impl TargetFactory {
    /// The target type a path names by its extension; a path without an
    /// extension, or with one that names no target type, is refused.
    pub fn target_type_of(path: &str) -> (r: Result<TargetType, String>)
        ensures
            match extension_of(path@) {
                None => r matches Err(m) && m@ == "No file extension found"@,
                Some(e) => match target_for(e) {
                    Some(t) => r == Ok::<TargetType, String>(t),
                    None => r matches Err(m) && m@ == unsupported_message(e),
                },
            },
    {
        match path_extension(path) {
            None => Err(owned("No file extension found")),
            Some(ext) => match TargetType::from_extension(ext.as_str()) {
                Some(t) => Ok(t),
                None => {
                    let mut m = owned("Unsupported target type: ");
                    push_str(&mut m, ext.as_str());
                    Err(m)
                },
            },
        }
    }

    /// Loads the target a path names: its type comes from the extension
    /// (see `target_type_of`), and the circuit from the loader of that
    /// type. Halo2 circuits have a loader (`Halo2Circuit::parse`); Circom,
    /// Gnark and Noir circuits have none here, and are refused.
    pub fn from_path(path: &str) -> (r: Result<Box<dyn ZKTarget>, String>)
        ensures
            match extension_of(path@) {
                None => r matches Err(m) && m@ == "No file extension found"@,
                Some(e) => match target_for(e) {
                    None => r matches Err(m) && m@ == unsupported_message(e),
                    Some(TargetType::Halo2) => match file_stem_of(path@) {
                        Some(_) => r is Ok,
                        None => r matches Err(m) && m@ == "Invalid file name"@,
                    },
                    Some(t) => r matches Err(m) && m@ == no_loader_message(t),
                },
            },
    {
        let t = match TargetFactory::target_type_of(path) {
            Ok(t) => t,
            Err(m) => return Err(m),
        };
        match t {
            TargetType::Halo2 => match Halo2Circuit::parse(path) {
                Ok(c) => Ok(Box::new(c)),
                Err(m) => Err(m),
            },
            _ => {
                let mut m = owned("No loader for ");
                push_str(&mut m, t.as_str());
                push_str(&mut m, " targets");
                Err(m)
            },
        }
    }
}

} // verus!
