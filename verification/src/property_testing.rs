//! Property-based testing: the tester's settings, test results, and the
//! shrinking of failing inputs toward smaller candidates.
use vstd::prelude::*;
use vstd::string::StringSliceAdditionalSpecFns;
use vstd::utf8::{encode_utf8, is_char_boundary};

verus! {

/// The outcome of one property test.
#[derive(Debug)]
pub struct TestResult {
    pub passed: bool,
    pub input: String,
    pub error: Option<String>,
    pub shrunk_input: Option<String>,
}

/// Settings of property tests.
#[derive(Debug, Clone, Copy, PartialEq, Eq, Structural)]
pub struct PropertyTester {
    test_count: usize,
    seed: u64,
    max_shrinks: usize,
}

impl PropertyTester {
    /// The number of tests to run.
    pub closed spec fn tests(self) -> usize {
        self.test_count
    }

    /// The seed.
    pub closed spec fn seed_value(self) -> u64 {
        self.seed
    }

    /// The largest number of shrinking steps.
    pub closed spec fn shrinks(self) -> usize {
        self.max_shrinks
    }

    /// A hundred tests, seed 0, at most ten shrinking steps.
    pub fn new() -> (t: Self)
        ensures
            t.tests() == 100,
            t.seed_value() == 0,
            t.shrinks() == 10,
    {
        PropertyTester { test_count: 100, seed: 0, max_shrinks: 10 }
    }

    /// The settings with another number of tests.
    pub fn with_tests(self, count: usize) -> (t: Self)
        ensures
            t.tests() == count,
            t.seed_value() == self.seed_value(),
            t.shrinks() == self.shrinks(),
    {
        PropertyTester { test_count: count, ..self }
    }

    /// The settings with another seed.
    pub fn with_seed(self, seed: u64) -> (t: Self)
        ensures
            t.seed_value() == seed,
            t.tests() == self.tests(),
            t.shrinks() == self.shrinks(),
    {
        PropertyTester { seed, ..self }
    }

    /// The settings with another largest number of shrinking steps.
    pub fn with_max_shrinks(self, max: usize) -> (t: Self)
        ensures
            t.shrinks() == max,
            t.tests() == self.tests(),
            t.seed_value() == self.seed_value(),
    {
        PropertyTester { max_shrinks: max, ..self }
    }

    /// Shrinks a failing input against the property: from the input, it
    /// steps to the first shrink candidate on which the property fails, and
    /// again from there, at most `max_shrinks` times, stopping early where
    /// the property holds on every candidate. The result is reached by such
    /// steps, and unless every step was taken, no candidate of it fails.
    pub fn shrink_input<T: Shrink, F: Fn(&T) -> bool>(&self, input: &T, property: F) -> (r: T)
        requires
            forall|x: &T| #[trigger] property.requires((x,)),
        ensures
            exists|n: nat|
                n <= self.shrinks() && #[trigger] shrink_path(property, *input, r, n) && (n
                    < self.shrinks() ==> no_failing_candidate(property, r)),
    {
        let mut current = input.copy_value();
        let mut steps: usize = 0;
        assert(shrink_path(property, *input, current, 0));
        while steps < self.max_shrinks
            invariant
                steps <= self.max_shrinks,
                forall|x: &T| #[trigger] property.requires((x,)),
                shrink_path(property, *input, current, steps as nat),
            decreases self.max_shrinks - steps,
        {
            let cands = current.shrink();
            let mut i: usize = 0;
            let mut found: Option<usize> = None;
            while i < cands.len()
                invariant_except_break
                    i <= cands@.len(),
                    found is None,
                invariant
                    cands@ == current.shrink_spec(),
                    forall|x: &T| #[trigger] property.requires((x,)),
                    forall|j: int| 0 <= j < i ==> passes_on(property, #[trigger] cands@[j]),
                ensures
                    found is None ==> i == cands@.len(),
                    found matches Some(k) ==> k == i && i < cands@.len() && fails_on(
                        property,
                        cands@[k as int],
                    ),
                decreases cands@.len() - i,
            {
                let ok = property(&cands[i]);
                if !ok {
                    found = Some(i);
                    break;
                }
                i += 1;
            }
            match found {
                None => {
                    assert(no_failing_candidate(property, current));
                    return current;
                },
                Some(k) => {
                    let next = cands[k].copy_value();
                    proof {
                        assert(first_failing(property, current, next));
                        lemma_path_step(property, *input, current, next, steps as nat);
                    }
                    current = next;
                    steps += 1;
                },
            }
        }
        assert(shrink_path(property, *input, current, steps as nat));
        current
    }

    /// The number of tests to run.
    pub fn test_count(&self) -> (n: usize)
        ensures
            n == self.tests(),
    {
        self.test_count
    }
}

impl Default for PropertyTester {
    fn default() -> (t: Self)
        ensures
            t.tests() == 100,
            t.seed_value() == 0,
            t.shrinks() == 10,
    {
        PropertyTester::new()
    }
}

/// Values that can be shrunk toward smaller ones: each has a sequence of
/// shrink candidates.
pub trait Shrink: Sized {
    /// The shrink candidates of the value, in the order they are tried.
    spec fn shrink_spec(&self) -> Seq<Self>;

    /// The shrink candidates of the value.
    fn shrink(&self) -> (r: Vec<Self>)
        ensures
            r@ == self.shrink_spec(),
    ;

    /// A copy of the value.
    fn copy_value(&self) -> (r: Self)
        ensures
            r == *self,
    ;
}

/// A call of the property on `x` may answer `false`.
pub open spec fn fails_on<T, F: Fn(&T) -> bool>(f: F, x: T) -> bool {
    f.ensures((&x,), false)
}

/// A call of the property on `x` may answer `true`.
pub open spec fn passes_on<T, F: Fn(&T) -> bool>(f: F, x: T) -> bool {
    f.ensures((&x,), true)
}

/// The property holds on every shrink candidate of `x`.
pub open spec fn no_failing_candidate<T: Shrink, F: Fn(&T) -> bool>(f: F, x: T) -> bool {
    forall|j: int| 0 <= j < x.shrink_spec().len() ==> passes_on(f, #[trigger] x.shrink_spec()[j])
}

/// `b` is the first shrink candidate of `p` on which the property fails.
pub open spec fn first_failing<T: Shrink, F: Fn(&T) -> bool>(f: F, p: T, b: T) -> bool {
    exists|i: int|
        0 <= i < p.shrink_spec().len() && #[trigger] p.shrink_spec()[i] == b && fails_on(f, b)
            && forall|j: int| 0 <= j < i ==> passes_on(f, #[trigger] p.shrink_spec()[j])
}

/// `b` is reached from `a` in exactly `n` shrinking steps, each to the
/// first failing candidate.
pub open spec fn shrink_path<T: Shrink, F: Fn(&T) -> bool>(f: F, a: T, b: T, n: nat) -> bool
    decreases n,
{
    if n == 0 {
        a == b
    } else {
        exists|p: T| shrink_path(f, a, p, (n - 1) as nat) && #[trigger] first_failing(f, p, b)
    }
}

/// A path of `n` steps followed by a step to the first failing candidate
/// is a path of `n + 1` steps.
pub proof fn lemma_path_step<T: Shrink, F: Fn(&T) -> bool>(f: F, a: T, p: T, b: T, n: nat)
    requires
        shrink_path(f, a, p, n),
        first_failing(f, p, b),
    ensures
        shrink_path(f, a, b, n + 1),
{
    assert(((n + 1) as nat - 1) as nat == n);
}

/// How many multiples of `step`, from 0 on, lie below `n`.
pub open spec fn step_count(n: int, step: int) -> nat {
    if n <= 0 {
        0
    } else {
        ((n + step - 1) / step) as nat
    }
}

/// Shrinking a flag: `true` shrinks to `false`, `false` to nothing.
pub fn shrink_bool(b: bool) -> (r: Vec<bool>)
    ensures
        r@ == if b {
            seq![false]
        } else {
            seq![]
        },
{
    if b {
        let r = vec![false];
        assert(r@ =~= seq![false]);
        r
    } else {
        Vec::new()
    }
}

/// Shrinking a byte: every smaller byte, ascending.
pub fn shrink_u8(x: u8) -> (r: Vec<u8>)
    ensures
        r@.len() == x,
        forall|i: int| 0 <= i < r@.len() ==> r@[i] == i,
        forall|i: int| 0 <= i < r@.len() ==> r@[i] < x,
{
    let mut r: Vec<u8> = Vec::new();
    let mut v: u8 = 0;
    while v < x
        invariant
            v <= x,
            r@.len() == v,
            forall|i: int| 0 <= i < r@.len() ==> r@[i] == i,
        decreases x - v,
    {
        r.push(v);
        v = v + 1;
    }
    r
}

/// Shrinking a `u16`: the multiples of 10 below it, ascending.
pub fn shrink_u16(x: u16) -> (r: Vec<u16>)
    ensures
        r@.len() == step_count(x as int, 10),
        forall|i: int| 0 <= i < r@.len() ==> r@[i] == i * 10,
        forall|i: int| 0 <= i < r@.len() ==> r@[i] < x,
{
    let mut r: Vec<u16> = Vec::new();
    let mut v: u16 = 0;
    while v < x
        invariant
            v as int == r@.len() * 10,
            r@.len() > 0 ==> v < x + 10,
            forall|i: int| 0 <= i < r@.len() ==> r@[i] == i * 10,
        decreases x - v,
    {
        r.push(v);
        if x - v <= 10 {
            return r;
        }
        v = v + 10;
    }
    r
}

/// Shrinking a `u32`: the multiples of 100 below it, ascending.
pub fn shrink_u32(x: u32) -> (r: Vec<u32>)
    ensures
        r@.len() == step_count(x as int, 100),
        forall|i: int| 0 <= i < r@.len() ==> r@[i] == i * 100,
        forall|i: int| 0 <= i < r@.len() ==> r@[i] < x,
{
    let mut r: Vec<u32> = Vec::new();
    let mut v: u32 = 0;
    while v < x
        invariant
            v as int == r@.len() * 100,
            r@.len() > 0 ==> v < x + 100,
            forall|i: int| 0 <= i < r@.len() ==> r@[i] == i * 100,
        decreases x - v,
    {
        r.push(v);
        if x - v <= 100 {
            return r;
        }
        v = v + 100;
    }
    r
}

/// Shrinking a `u64`: the multiples of 1000 below it, ascending.
pub fn shrink_u64(x: u64) -> (r: Vec<u64>)
    ensures
        r@.len() == step_count(x as int, 1000),
        forall|i: int| 0 <= i < r@.len() ==> r@[i] == i * 1000,
        forall|i: int| 0 <= i < r@.len() ==> r@[i] < x,
{
    let mut r: Vec<u64> = Vec::new();
    let mut v: u64 = 0;
    while v < x
        invariant
            v as int == r@.len() * 1000,
            r@.len() > 0 ==> v < x + 1000,
            forall|i: int| 0 <= i < r@.len() ==> r@[i] == i * 1000,
        decreases x - v,
    {
        r.push(v);
        if x - v <= 1000 {
            return r;
        }
        v = v + 1000;
    }
    r
}

/// Shrinking an `i32`: every number from 0 up to below a positive value,
/// or from a negative value up to below 0, ascending; nothing for 0.
pub fn shrink_i32(x: i32) -> (r: Vec<i32>)
    ensures
        x >= 0 ==> r@.len() == x && forall|i: int| 0 <= i < r@.len() ==> r@[i] == i,
        x < 0 ==> r@.len() == -x && forall|i: int| 0 <= i < r@.len() ==> r@[i] == x + i,
        forall|i: int| 0 <= i < r@.len() ==> if x > 0 { 0 <= #[trigger] r@[i] < x } else { x <= r@[i] < 0 },
{
    let mut r: Vec<i32> = Vec::new();
    if x > 0 {
        let mut v: i32 = 0;
        while v < x
            invariant
                0 <= v <= x,
                r@.len() == v,
                forall|i: int| 0 <= i < r@.len() ==> r@[i] == i,
            decreases x - v,
        {
            r.push(v);
            v = v + 1;
        }
    } else if x < 0 {
        let mut v: i32 = x;
        while v < 0
            invariant
                x <= v <= 0,
                r@.len() == v - x,
                forall|i: int| 0 <= i < r@.len() ==> r@[i] == x + i,
            decreases 0 - v,
        {
            r.push(v);
            v = v + 1;
        }
    }
    r
}

/// Shrinking an `i64`: from 0 in steps of 100 up to below a positive
/// value, or from a negative value in steps of 100 up to below 0; nothing for 0.
pub fn shrink_i64(x: i64) -> (r: Vec<i64>)
    ensures
        x >= 0 ==> r@.len() == step_count(x as int, 100) && forall|i: int|
            0 <= i < r@.len() ==> r@[i] == i * 100,
        x < 0 ==> r@.len() == step_count(-x, 100) && forall|i: int|
            0 <= i < r@.len() ==> r@[i] == x + i * 100,
        forall|i: int| 0 <= i < r@.len() ==> if x > 0 { 0 <= #[trigger] r@[i] < x } else { x <= r@[i] < 0 },
{
    let mut r: Vec<i64> = Vec::new();
    if x > 0 {
        let mut v: i64 = 0;
        while v < x
            invariant
                0 < x,
                v as int == r@.len() * 100,
                r@.len() > 0 ==> v < x + 100,
                forall|i: int| 0 <= i < r@.len() ==> r@[i] == i * 100,
            decreases x - v,
        {
            r.push(v);
            if x - v <= 100 {
                return r;
            }
            v = v + 100;
        }
    } else if x < 0 {
        let mut v: i64 = x;
        while v < 0
            invariant
                x < 0,
                x <= v,
                v as int == x + r@.len() * 100,
                r@.len() > 0 ==> v < 100,
                forall|i: int| 0 <= i < r@.len() ==> r@[i] == x + i * 100,
            decreases 0 - v,
        {
            r.push(v);
            if v >= -100 {
                return r;
            }
            v = v + 100;
        }
    }
    r
}

/// Shrinking a list: its first half (nothing for an empty list).
pub fn shrink_vec<T: Clone>(v: &Vec<T>) -> (r: Vec<Vec<T>>)
    ensures
        v@.len() == 0 ==> r@.len() == 0,
        v@.len() > 0 ==> r@.len() == 1 && r@[0]@.len() == v@.len() / 2 && forall|i: int|
            0 <= i < v@.len() / 2 ==> cloned(v@[i], #[trigger] r@[0]@[i]),
{
    if v.len() == 0 {
        return Vec::new();
    }
    let half = v.len() / 2;
    let mut h: Vec<T> = Vec::new();
    let mut i: usize = 0;
    while i < half
        invariant
            i <= half,
            half == v@.len() / 2,
            h@.len() == i,
            forall|j: int| 0 <= j < i ==> cloned(v@[j], #[trigger] h@[j]),
        decreases half - i,
    {
        h.push(v[i].clone());
        i += 1;
    }
    vec![h]
}

/// Shrinking a string: its first half by bytes (nothing for an empty
/// string). The half must end on a character boundary, as slicing demands.
pub fn shrink_string(s: &String) -> (r: Vec<String>)
    requires
        encode_utf8(s@).len() <= usize::MAX,
        s@.len() > 0 ==> is_char_boundary(encode_utf8(s@), (encode_utf8(s@).len() / 2) as int),
    ensures
        s@.len() == 0 ==> r@.len() == 0,
        s@.len() > 0 ==> r@.len() == 1 && encode_utf8(r@[0]@) == encode_utf8(s@).subrange(
            0,
            (encode_utf8(s@).len() / 2) as int,
        ),
{
    let t = s.as_str();
    if t.is_empty() {
        return Vec::new();
    }
    let mid = t.len() / 2;
    assert(t.spec_bytes() == encode_utf8(s@));
    let (a, _) = t.split_at(mid);
    vec![a.to_owned()]
}

impl Shrink for bool {
    open spec fn shrink_spec(&self) -> Seq<bool> {
        if *self {
            seq![false]
        } else {
            seq![]
        }
    }

    fn shrink(&self) -> (r: Vec<bool>) {
        shrink_bool(*self)
    }

    fn copy_value(&self) -> (r: bool) {
        *self
    }
}

impl Shrink for u8 {
    open spec fn shrink_spec(&self) -> Seq<u8> {
        Seq::new(*self as nat, |i: int| i as u8)
    }

    fn shrink(&self) -> (r: Vec<u8>) {
        let r = shrink_u8(*self);
        assert(r@ =~= self.shrink_spec());
        r
    }

    fn copy_value(&self) -> (r: u8) {
        *self
    }
}

impl Shrink for u16 {
    open spec fn shrink_spec(&self) -> Seq<u16> {
        Seq::new(step_count(*self as int, 10), |i: int| (i * 10) as u16)
    }

    fn shrink(&self) -> (r: Vec<u16>) {
        let r = shrink_u16(*self);
        assert(r@ =~= self.shrink_spec());
        r
    }

    fn copy_value(&self) -> (r: u16) {
        *self
    }
}

impl Shrink for u32 {
    open spec fn shrink_spec(&self) -> Seq<u32> {
        Seq::new(step_count(*self as int, 100), |i: int| (i * 100) as u32)
    }

    fn shrink(&self) -> (r: Vec<u32>) {
        let r = shrink_u32(*self);
        assert(r@ =~= self.shrink_spec());
        r
    }

    fn copy_value(&self) -> (r: u32) {
        *self
    }
}

impl Shrink for u64 {
    open spec fn shrink_spec(&self) -> Seq<u64> {
        Seq::new(step_count(*self as int, 1000), |i: int| (i * 1000) as u64)
    }

    fn shrink(&self) -> (r: Vec<u64>) {
        let r = shrink_u64(*self);
        assert(r@ =~= self.shrink_spec());
        r
    }

    fn copy_value(&self) -> (r: u64) {
        *self
    }
}

impl Shrink for i32 {
    open spec fn shrink_spec(&self) -> Seq<i32> {
        if *self >= 0 {
            Seq::new(*self as nat, |i: int| i as i32)
        } else {
            Seq::new((-*self) as nat, |i: int| (*self + i) as i32)
        }
    }

    fn shrink(&self) -> (r: Vec<i32>) {
        let r = shrink_i32(*self);
        assert(r@ =~= self.shrink_spec());
        r
    }

    fn copy_value(&self) -> (r: i32) {
        *self
    }
}

impl Shrink for i64 {
    open spec fn shrink_spec(&self) -> Seq<i64> {
        if *self >= 0 {
            Seq::new(step_count(*self as int, 100), |i: int| (i * 100) as i64)
        } else {
            Seq::new(step_count(-*self, 100), |i: int| (*self + i * 100) as i64)
        }
    }

    fn shrink(&self) -> (r: Vec<i64>) {
        let r = shrink_i64(*self);
        assert(r@ =~= self.shrink_spec());
        r
    }

    fn copy_value(&self) -> (r: i64) {
        *self
    }
}

} // verus!
