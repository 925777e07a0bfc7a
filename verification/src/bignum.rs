//! Arbitrary-precision integers for signal values.
//!
//! A `BigNum` keeps a sign and the little-endian bytes of the magnitude in
//! canonical form (no most significant zero byte, zero is never negative),
//! so that two values are equal exactly when their fields are. Arithmetic is
//! carried out by `num_bigint`; the wrappers below state what each operation
//! computes on the mathematical integers.
use num_bigint::{BigInt, Sign};
use vstd::prelude::*;

verus! {

/// The value of little-endian base-256 digits.
pub open spec fn mag_value(bytes: Seq<u8>) -> nat
    decreases bytes.len(),
{
    if bytes.len() == 0 {
        0
    } else {
        bytes[0] as nat + 256 * mag_value(bytes.drop_first())
    }
}

/// The value of a sign flag and little-endian magnitude bytes.
pub open spec fn raw_value(negative: bool, bytes: Seq<u8>) -> int {
    if negative {
        -(mag_value(bytes) as int)
    } else {
        mag_value(bytes) as int
    }
}

/// Whether little-endian magnitude bytes have no most significant zero byte.
pub open spec fn no_high_zero(bytes: Seq<u8>) -> bool {
    bytes.len() > 0 ==> bytes.last() != 0
}

/// Integer division that rounds toward zero, as Rust and `num_bigint` divide.
pub open spec fn trunc_div(a: int, b: int) -> int {
    let q = (if a < 0 { -a } else { a }) / (if b < 0 { -b } else { b });
    if (a < 0) == (b < 0) {
        q
    } else {
        -q
    }
}

/// The remainder that goes with `trunc_div`; it has the sign of `a`.
pub open spec fn trunc_rem(a: int, b: int) -> int {
    a - b * trunc_div(a, b)
}

/// The value of big-endian ASCII decimal digits.
pub open spec fn decimal_digits_value(digits: Seq<u8>) -> nat
    decreases digits.len(),
{
    if digits.len() == 0 {
        0
    } else {
        decimal_digits_value(digits.drop_last()) * 10 + (digits.last() - 48) as nat
    }
}

/// Whether every byte is an ASCII decimal digit.
pub open spec fn all_decimal_digits(digits: Seq<u8>) -> bool {
    forall|i: int| 0 <= i < digits.len() ==> 48 <= #[trigger] digits[i] <= 57
}

/// The absolute value of an integer.
pub open spec fn abs_int(x: int) -> int {
    if x < 0 {
        -x
    } else {
        x
    }
}

/// The little-endian magnitude bytes of an integer as `num_bigint`'s
/// `to_bytes_le` gives them: the shortest ones, and the single byte `0` for zero.
pub open spec fn mag_bytes(x: int) -> Seq<u8> {
    if x == 0 {
        seq![0u8]
    } else {
        choose|b: Seq<u8>| b.len() > 0 && no_high_zero(b) && mag_value(b) == abs_int(x)
    }
}

/// A magnitude of `n` bytes is below 256^n.
pub proof fn lemma_mag_value_below(bytes: Seq<u8>)
    ensures
        mag_value(bytes) < vstd::arithmetic::power::pow(256, bytes.len()),
    decreases bytes.len(),
{
    vstd::arithmetic::power::lemma_pow0(256);
    if bytes.len() > 0 {
        lemma_mag_value_below(bytes.drop_first());
        vstd::arithmetic::power::lemma_pow_adds(256, 1, (bytes.len() - 1) as nat);
        vstd::arithmetic::power::lemma_pow1(256);
        let p = vstd::arithmetic::power::pow(256, (bytes.len() - 1) as nat);
        let m = mag_value(bytes.drop_first());
        assert(bytes[0] as nat + 256 * m < 256 * p) by (nonlinear_arith)
            requires
                m < p,
                bytes[0] < 256,
        ;
    }
}

proof fn lemma_mag_push_zero(s: Seq<u8>)
    ensures
        mag_value(s.push(0)) == mag_value(s),
    decreases s.len(),
{
    if s.len() == 0 {
        assert(s.push(0).drop_first() =~= Seq::<u8>::empty());
        assert(mag_value(Seq::<u8>::empty()) == 0);
        assert(s.push(0)[0] == 0);
    } else {
        assert(s.push(0).drop_first() =~= s.drop_first().push(0));
        lemma_mag_push_zero(s.drop_first());
        assert(s.push(0)[0] == s[0]);
    }
}

proof fn lemma_mag_positive(s: Seq<u8>)
    requires
        s.len() > 0,
        no_high_zero(s),
    ensures
        mag_value(s) > 0,
    decreases s.len(),
{
    if s.len() > 1 {
        assert(s.drop_first().last() == s.last());
        lemma_mag_positive(s.drop_first());
    }
}

proof fn lemma_mag_injective(a: Seq<u8>, b: Seq<u8>)
    requires
        no_high_zero(a),
        no_high_zero(b),
        mag_value(a) == mag_value(b),
    ensures
        a == b,
    decreases a.len(),
{
    if a.len() == 0 {
        if b.len() > 0 {
            lemma_mag_positive(b);
        }
        assert(b.len() == 0);
        assert(a =~= b);
    } else {
        if b.len() == 0 {
            lemma_mag_positive(a);
        }
        assert(b.len() > 0);
        assert(a[0] == b[0]);
        if a.len() > 1 {
            assert(a.drop_first().last() == a.last());
        }
        if b.len() > 1 {
            assert(b.drop_first().last() == b.last());
        }
        lemma_mag_injective(a.drop_first(), b.drop_first());
        assert(a =~= seq![a[0]] + a.drop_first());
        assert(b =~= seq![b[0]] + b.drop_first());
    }
}

/// An arbitrary-precision integer.
#[derive(Debug, PartialEq, Eq)]
pub struct BigNum {
    negative: bool,
    magnitude: Vec<u8>,
}

impl BigNum {
    #[verifier::type_invariant]
    spec fn canonical(self) -> bool {
        &&& no_high_zero(self.magnitude@)
        &&& self.magnitude@.len() == 0 ==> !self.negative
    }

    /// The integer this value stands for.
    pub closed spec fn value(self) -> int {
        raw_value(self.negative, self.magnitude@)
    }

    /// Builds a value from a sign flag and little-endian magnitude bytes,
    /// dropping most significant zero bytes.
    pub fn from_raw(negative: bool, bytes: Vec<u8>) -> (r: BigNum)
        ensures
            r@ == raw_value(negative, bytes@),
    {
        let mut bytes = bytes;
        let ghost orig = bytes@;
        while bytes.len() > 0 && bytes[bytes.len() - 1] == 0
            invariant
                mag_value(bytes@) == mag_value(orig),
            decreases bytes.len(),
        {
            let ghost before = bytes@;
            bytes.pop();
            proof {
                assert(before =~= bytes@.push(0));
                lemma_mag_push_zero(bytes@);
            }
        }
        let neg = negative && bytes.len() > 0;
        let r = BigNum { negative: neg, magnitude: bytes };
        proof {
            if bytes.len() == 0 {
                assert(mag_value(bytes@) == 0);
            }
        }
        r
    }

    /// The value of a machine integer.
    pub fn from_i64(n: i64) -> (r: BigNum)
        ensures
            r@ == n as int,
    {
        let negative = n < 0;
        let m: u64 = if negative {
            (0i128 - n as i128) as u64
        } else {
            n as u64
        };
        let bytes = le_bytes_of(m);
        BigNum { negative: negative && bytes.len() > 0, magnitude: bytes }
    }

    /// The non-negative value of little-endian bytes.
    pub fn from_le_bytes(bytes: &[u8]) -> (r: BigNum)
        ensures
            r@ == mag_value(bytes@) as int,
    {
        let v = vstd::slice::slice_to_vec(bytes);
        BigNum::from_raw(false, v)
    }

    /// Zero.
    pub fn zero() -> (r: BigNum)
        ensures
            r@ == 0,
    {
        BigNum { negative: false, magnitude: Vec::new() }
    }

    /// Whether the value is zero.
    pub fn is_zero(&self) -> (b: bool)
        ensures
            b == (self@ == 0),
    {
        proof {
            use_type_invariant(self);
            if self.magnitude@.len() > 0 {
                lemma_mag_positive(self.magnitude@);
            }
        }
        self.magnitude.len() == 0
    }

    /// Whether two values are the same integer.
    pub fn same_value(&self, other: &BigNum) -> (b: bool)
        ensures
            b == (self@ == other@),
    {
        proof {
            use_type_invariant(self);
            use_type_invariant(other);
        }
        let mut same = self.negative == other.negative && self.magnitude.len()
            == other.magnitude.len();
        let mut i: usize = 0;
        while same && i < self.magnitude.len()
            invariant
                same ==> self.magnitude.len() == other.magnitude.len(),
                same ==> self.negative == other.negative,
                same ==> forall|j: int| 0 <= j < i ==> self.magnitude@[j] == other.magnitude@[j],
                !same ==> self.negative != other.negative || self.magnitude@ != other.magnitude@,
                i <= self.magnitude.len(),
            decreases self.magnitude.len() - i,
        {
            if self.magnitude[i] != other.magnitude[i] {
                same = false;
                assert(self.magnitude@[i as int] != other.magnitude@[i as int]);
            }
            i += 1;
        }
        proof {
            if same {
                assert(self.magnitude@ =~= other.magnitude@);
            }
            lemma_value_determines(*self, *other);
        }
        same
    }

    /// The sign and little-endian magnitude bytes, as `num_bigint` reports
    /// them: zero has the single magnitude byte `0`.
    pub fn to_bytes_le(&self) -> (r: (bool, Vec<u8>))
        ensures
            r.0 == (self@ < 0),
            r.1@.len() > 0,
            raw_value(r.0, r.1@) == self@,
            self@ == 0 ==> r.1@ == seq![0u8],
            self@ != 0 ==> no_high_zero(r.1@),
            r.1@ == mag_bytes(self@),
    {
        proof {
            use_type_invariant(self);
            if self.magnitude@.len() > 0 {
                lemma_mag_positive(self.magnitude@);
                let m = self.magnitude@;
                assert(m.len() > 0 && no_high_zero(m) && mag_value(m) == abs_int(self@));
                let c = choose|b: Seq<u8>| b.len() > 0 && no_high_zero(b) && mag_value(b) == abs_int(self@);
                lemma_mag_injective(c, m);
            }
        }
        if self.magnitude.len() == 0 {
            let mut v = Vec::new();
            v.push(0u8);
            proof {
                assert(v@.drop_first() =~= Seq::<u8>::empty());
                assert(mag_value(Seq::<u8>::empty()) == 0);
                assert(mag_value(v@) == 0);
            }
            (false, v)
        } else {
            (self.negative, self.magnitude.clone())
        }
    }

    /// The sum of two values.
    pub fn add(&self, other: &BigNum) -> (r: BigNum)
        ensures
            r@ == self@ + other@,
    {
        let (neg, bytes) = bigint_add(self, other);
        BigNum::from_raw(neg, bytes)
    }

    /// The difference of two values.
    pub fn sub(&self, other: &BigNum) -> (r: BigNum)
        ensures
            r@ == self@ - other@,
    {
        let (neg, bytes) = bigint_sub(self, other);
        BigNum::from_raw(neg, bytes)
    }

    /// The product of two values.
    pub fn mul(&self, other: &BigNum) -> (r: BigNum)
        ensures
            r@ == self@ * other@,
    {
        let (neg, bytes) = bigint_mul(self, other);
        BigNum::from_raw(neg, bytes)
    }

    /// The quotient rounded toward zero.
    pub fn div_trunc(&self, other: &BigNum) -> (r: BigNum)
        requires
            other@ != 0,
        ensures
            r@ == trunc_div(self@, other@),
    {
        let (neg, bytes) = bigint_div(self, other);
        BigNum::from_raw(neg, bytes)
    }

    /// The remainder of the division rounded toward zero.
    pub fn rem_trunc(&self, other: &BigNum) -> (r: BigNum)
        requires
            other@ != 0,
        ensures
            r@ == trunc_rem(self@, other@),
    {
        let (neg, bytes) = bigint_rem(self, other);
        BigNum::from_raw(neg, bytes)
    }

    /// Reads an unsigned decimal numeral.
    pub fn parse_decimal(digits: &[u8]) -> (r: Option<BigNum>)
        ensures
            (digits@.len() > 0 && all_decimal_digits(digits@)) ==> (r matches Some(v) && v@
                == decimal_digits_value(digits@) as int),
    {
        match bigint_parse_decimal(digits) {
            Some((neg, bytes)) => Some(BigNum::from_raw(neg, bytes)),
            None => None,
        }
    }
}

impl Clone for BigNum {
    fn clone(&self) -> (r: BigNum)
        ensures
            r@ == self@,
    {
        proof {
            use_type_invariant(self);
        }
        let m = self.magnitude.clone();
        assert(m@ =~= self.magnitude@);
        BigNum { negative: self.negative, magnitude: m }
    }
}

impl View for BigNum {
    type V = int;

    closed spec fn view(&self) -> int {
        self.value()
    }
}

proof fn lemma_value_determines(a: BigNum, b: BigNum)
    requires
        no_high_zero(a.magnitude@),
        no_high_zero(b.magnitude@),
        a.magnitude@.len() == 0 ==> !a.negative,
        b.magnitude@.len() == 0 ==> !b.negative,
    ensures
        (a@ == b@) == (a.negative == b.negative && a.magnitude@ == b.magnitude@),
{
    if a@ == b@ {
        if a.magnitude@.len() > 0 {
            lemma_mag_positive(a.magnitude@);
        }
        if b.magnitude@.len() > 0 {
            lemma_mag_positive(b.magnitude@);
        }
        if a.negative == b.negative {
            lemma_mag_injective(a.magnitude@, b.magnitude@);
        } else {
            assert(mag_value(a.magnitude@) == 0 && mag_value(b.magnitude@) == 0);
        }
    }
}

fn le_bytes_of(m: u64) -> (v: Vec<u8>)
    ensures
        mag_value(v@) == m,
        no_high_zero(v@),
        (v@.len() == 0) == (m == 0),
    decreases m,
{
    if m == 0 {
        Vec::new()
    } else {
        let rest = le_bytes_of(m / 256);
        let mut v: Vec<u8> = Vec::new();
        v.push((m % 256) as u8);
        let mut rest = rest;
        let ghost r = rest@;
        v.append(&mut rest);
        proof {
            assert(v@.drop_first() =~= r);
            if r.len() > 0 {
                assert(v@.last() == r.last());
            }
        }
        v
    }
}

/// Adds with `num_bigint`: the sign flag and little-endian magnitude that
/// `BigInt::to_bytes_le` reports for the sum of the two values.
#[verifier::external_body]
fn bigint_add(a: &BigNum, b: &BigNum) -> (r: (bool, Vec<u8>))
    ensures
        raw_value(r.0, r.1@) == a@ + b@,
{
    let x = BigInt::from_bytes_le(if a.negative { Sign::Minus } else { Sign::Plus }, &a.magnitude);
    let y = BigInt::from_bytes_le(if b.negative { Sign::Minus } else { Sign::Plus }, &b.magnitude);
    let (s, m) = (x + y).to_bytes_le();
    (matches!(s, Sign::Minus), m)
}

/// Subtracts with `num_bigint`: the sign flag and little-endian magnitude that
/// `BigInt::to_bytes_le` reports for the difference.
#[verifier::external_body]
fn bigint_sub(a: &BigNum, b: &BigNum) -> (r: (bool, Vec<u8>))
    ensures
        raw_value(r.0, r.1@) == a@ - b@,
{
    let x = BigInt::from_bytes_le(if a.negative { Sign::Minus } else { Sign::Plus }, &a.magnitude);
    let y = BigInt::from_bytes_le(if b.negative { Sign::Minus } else { Sign::Plus }, &b.magnitude);
    let (s, m) = (x - y).to_bytes_le();
    (matches!(s, Sign::Minus), m)
}

/// Multiplies with `num_bigint`: the sign flag and little-endian magnitude
/// that `BigInt::to_bytes_le` reports for the product.
#[verifier::external_body]
fn bigint_mul(a: &BigNum, b: &BigNum) -> (r: (bool, Vec<u8>))
    ensures
        raw_value(r.0, r.1@) == a@ * b@,
{
    let x = BigInt::from_bytes_le(if a.negative { Sign::Minus } else { Sign::Plus }, &a.magnitude);
    let y = BigInt::from_bytes_le(if b.negative { Sign::Minus } else { Sign::Plus }, &b.magnitude);
    let (s, m) = (x * y).to_bytes_le();
    (matches!(s, Sign::Minus), m)
}

/// Divides with `num_bigint` (`BigInt`'s `/`, which rounds toward zero and
/// panics on a zero divisor, hence the `requires`).
#[verifier::external_body]
fn bigint_div(a: &BigNum, b: &BigNum) -> (r: (bool, Vec<u8>))
    requires
        b@ != 0,
    ensures
        raw_value(r.0, r.1@) == trunc_div(a@, b@),
{
    let x = BigInt::from_bytes_le(if a.negative { Sign::Minus } else { Sign::Plus }, &a.magnitude);
    let y = BigInt::from_bytes_le(if b.negative { Sign::Minus } else { Sign::Plus }, &b.magnitude);
    let (s, m) = (x / y).to_bytes_le();
    (matches!(s, Sign::Minus), m)
}

/// Takes the remainder with `num_bigint` (`BigInt`'s `%`, the remainder of
/// the division rounded toward zero; a zero divisor panics).
#[verifier::external_body]
fn bigint_rem(a: &BigNum, b: &BigNum) -> (r: (bool, Vec<u8>))
    requires
        b@ != 0,
    ensures
        raw_value(r.0, r.1@) == trunc_rem(a@, b@),
{
    let x = BigInt::from_bytes_le(if a.negative { Sign::Minus } else { Sign::Plus }, &a.magnitude);
    let y = BigInt::from_bytes_le(if b.negative { Sign::Minus } else { Sign::Plus }, &b.magnitude);
    let (s, m) = (x % y).to_bytes_le();
    (matches!(s, Sign::Minus), m)
}

/// `BigInt::parse_bytes(digits, 10)`: on a non-empty run of ASCII decimal
/// digits it gives the number they write. Other inputs (a sign, underscores,
/// anything else) are left unstated.
#[verifier::external_body]
fn bigint_parse_decimal(digits: &[u8]) -> (r: Option<(bool, Vec<u8>)>)
    ensures
        digits@.len() > 0 && all_decimal_digits(digits@) ==> r.is_some(),
        digits@.len() > 0 && all_decimal_digits(digits@) ==> raw_value(r.unwrap().0, r.unwrap().1@)
            == decimal_digits_value(digits@) as int,
{
    match BigInt::parse_bytes(digits, 10) {
        Some(v) => {
            let (s, m) = v.to_bytes_le();
            Some((matches!(s, Sign::Minus), m))
        },
        None => None,
    }
}

} // verus!
