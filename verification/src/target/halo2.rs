//! A Halo2 circuit as a fuzzing target.
use crate::random::thread_random_byte;
use crate::target::{CircuitMetadata, ZKTarget};
use crate::text::{file_stem, file_stem_of, owned};
use vstd::prelude::*;

verus! {

/// A Halo2 circuit: its name, domain size and counts.
#[derive(Debug, Clone)]
pub struct Halo2Circuit {
    name: String,
    k: u32,
    public_inputs: usize,
    private_inputs: usize,
    constraints: usize,
    wires: usize,
    gates: usize,
    version: String,
}

impl Halo2Circuit {
    /// The name.
    pub closed spec fn name_text(self) -> Seq<char> {
        self.name@
    }

    /// The log2 of the domain size.
    pub closed spec fn domain_log(self) -> u32 {
        self.k
    }

    /// The public input count.
    pub closed spec fn publics(self) -> usize {
        self.public_inputs
    }

    /// The private input count.
    pub closed spec fn privates(self) -> usize {
        self.private_inputs
    }

    /// The constraint count.
    pub closed spec fn constraint_total(self) -> usize {
        self.constraints
    }

    /// How many wires the circuit has.
    pub closed spec fn wire_total(self) -> usize {
        self.wires
    }

    /// How many gates the circuit has.
    pub closed spec fn gate_total(self) -> usize {
        self.gates
    }

    /// The version.
    pub closed spec fn version_text(self) -> Seq<char> {
        self.version@
    }

    /// Everything but the input and constraint counts is as in `other`.
    pub open spec fn same_frame(self, other: Self) -> bool {
        &&& self.name_text() == other.name_text()
        &&& self.domain_log() == other.domain_log()
        &&& self.wire_total() == other.wire_total()
        &&& self.gate_total() == other.gate_total()
        &&& self.version_text() == other.version_text()
    }

    /// A circuit with a name and domain size, no inputs, constraints, wires
    /// or gates, at version 0.1.
    pub fn new(name: String, k: u32) -> (c: Self)
        ensures
            c.name_text() == name@,
            c.domain_log() == k,
            c.publics() == 0,
            c.privates() == 0,
            c.constraint_total() == 0,
            c.wire_total() == 0,
            c.gate_total() == 0,
            c.version_text() == "0.1"@,
    {
        Halo2Circuit {
            name,
            k,
            public_inputs: 0,
            private_inputs: 0,
            constraints: 0,
            wires: 0,
            gates: 0,
            version: owned("0.1"),
        }
    }

    /// Sets the number of public inputs.
    pub fn set_public_inputs(&mut self, count: usize)
        ensures
            final(self).publics() == count,
            final(self).privates() == old(self).privates(),
            final(self).constraint_total() == old(self).constraint_total(),
            final(self).same_frame(*old(self)),
    {
        self.public_inputs = count;
    }

    /// Sets the number of private inputs.
    pub fn set_private_inputs(&mut self, count: usize)
        ensures
            final(self).privates() == count,
            final(self).publics() == old(self).publics(),
            final(self).constraint_total() == old(self).constraint_total(),
            final(self).same_frame(*old(self)),
    {
        self.private_inputs = count;
    }

    /// Sets the number of constraints.
    pub fn set_constraints(&mut self, count: usize)
        ensures
            final(self).constraint_total() == count,
            final(self).publics() == old(self).publics(),
            final(self).privates() == old(self).privates(),
            final(self).same_frame(*old(self)),
    {
        self.constraints = count;
    }

    /// The log2 of the domain size.
    pub fn k(&self) -> (r: u32)
        ensures
            r == self.domain_log(),
    {
        self.k
    }
}

impl Halo2Circuit {
    /// Loads a circuit from a path: it is named by the path's file stem
    /// and has domain size 2^5; a path without a file stem is refused.
    pub fn parse(path: &str) -> (r: Result<Self, String>)
        ensures
            match file_stem_of(path@) {
                Some(s) => r matches Ok(c) && c.name_text() == s && c.domain_log() == 5
                    && c.publics() == 0 && c.privates() == 0 && c.constraint_total() == 0
                    && c.wire_total() == 0 && c.gate_total() == 0 && c.version_text() == "0.1"@,
                None => r matches Err(m) && m@ == "Invalid file name"@,
            },
    {
        match file_stem(path) {
            Some(name) => Ok(Halo2Circuit::new(name, 5)),
            None => Err(owned("Invalid file name")),
        }
    }
}

impl ZKTarget for Halo2Circuit {
    fn name(&self) -> (r: &str)
        ensures
            r@ == self.name_text(),
    {
        self.name.as_str()
    }

    fn public_input_count(&self) -> (r: usize)
        ensures
            r == self.publics(),
    {
        self.public_inputs
    }

    fn private_input_count(&self) -> (r: usize)
        ensures
            r == self.privates(),
    {
        self.private_inputs
    }

    fn constraint_count(&self) -> (r: usize)
        ensures
            r == self.constraint_total(),
    {
        self.constraints
    }

    /// Every input is accepted: no check stands behind this yet.
    fn validate_input(&self, input: &[u8]) -> (r: Result<bool, String>)
        ensures
            r == Ok::<bool, String>(true),
    {
        Ok(true)
    }

    /// 32 random bytes for each public and private input (none if that
    /// count overflows).
    fn generate_random_input(&self) -> (r: Vec<u8>)
        ensures
            (self.publics() + self.privates()) * 32 <= usize::MAX ==> r@.len() == (self.publics()
                + self.privates()) * 32,
    {
        let total = self.public_inputs.checked_add(self.private_inputs);
        let n = match total {
            Some(t) => t.checked_mul(32),
            None => None,
        };
        let mut r: Vec<u8> = Vec::new();
        match n {
            Some(n) => {
                let mut i: usize = 0;
                while i < n
                    invariant
                        i <= n,
                        r@.len() == i,
                    decreases n - i,
                {
                    r.push(thread_random_byte());
                    i += 1;
                }
            },
            None => {},
        }
        r
    }

    fn metadata(&self) -> (m: CircuitMetadata)
        ensures
            m.name@ == self.name_text(),
            m.target_type@ == "halo2"@,
            m.public_inputs == self.publics(),
            m.private_inputs == self.privates(),
            m.constraints == self.constraint_total(),
            m.wires == self.wire_total(),
            m.gates == self.gate_total(),
            m.version@ == self.version_text(),
    {
        CircuitMetadata {
            name: self.name.clone(),
            target_type: owned("halo2"),
            public_inputs: self.public_inputs,
            private_inputs: self.private_inputs,
            constraints: self.constraints,
            wires: self.wires,
            gates: self.gates,
            version: self.version.clone(),
        }
    }
}

} // verus!
