use vstd::prelude::*;

use crate::bytes::{be_encoding, be_value, le_encoding, le_value, lemma_be_value_three_bytes};

verus! {

#[verifier::external_type_specification]
#[verifier::external_body]
pub struct ExBigUint(num_bigint::BigUint);

/// The non-negative integer that a `num_bigint::BigUint` holds.
pub uninterp spec fn big_val(b: num_bigint::BigUint) -> nat;

/// Relies on `num_bigint::BigUint::from_bytes_be`: the bytes are read as an
/// unsigned integer in big-endian order; an empty slice gives zero.
#[verifier::external_body]
fn big_from_bytes_be(bytes: &[u8]) -> (r: num_bigint::BigUint)
    ensures
        big_val(r) == be_value(bytes@),
{
    num_bigint::BigUint::from_bytes_be(bytes)
}

/// Relies on `num_bigint::BigUint::from_bytes_le`: the bytes are read as an
/// unsigned integer in little-endian order; an empty slice gives zero.
#[verifier::external_body]
fn big_from_bytes_le(bytes: &[u8]) -> (r: num_bigint::BigUint)
    ensures
        big_val(r) == le_value(bytes@),
{
    num_bigint::BigUint::from_bytes_le(bytes)
}

/// Relies on `num_bigint::BigUint::to_bytes_be`: the big-endian bytes of the
/// value with no leading zero byte; zero comes out as a single zero byte.
#[verifier::external_body]
fn big_to_bytes_be(b: &num_bigint::BigUint) -> (r: Vec<u8>)
    ensures
        r@ == be_encoding(big_val(*b)),
{
    b.to_bytes_be()
}

/// Relies on `num_bigint::BigUint::to_bytes_le`: the little-endian bytes of the
/// value with no trailing zero byte; zero comes out as a single zero byte.
#[verifier::external_body]
fn big_to_bytes_le(b: &num_bigint::BigUint) -> (r: Vec<u8>)
    ensures
        r@ == le_encoding(big_val(*b)),
{
    b.to_bytes_le()
}

/// Relies on `<num_bigint::BigUint as From<u8>>::from`: the value of the byte.
#[verifier::external_body]
fn big_from_u8(x: u8) -> (r: num_bigint::BigUint)
    ensures
        big_val(r) == x as nat,
{
    num_bigint::BigUint::from(x)
}

/// Relies on `num_bigint::BigUint`'s `Add`: big-integer addition.
#[verifier::external_body]
fn big_add(a: &num_bigint::BigUint, b: &num_bigint::BigUint) -> (r: num_bigint::BigUint)
    ensures
        big_val(r) == big_val(*a) + big_val(*b),
{
    a + b
}

/// Relies on `num_bigint::BigUint`'s `Sub`: big-integer subtraction, which
/// panics when the subtrahend exceeds the minuend, so that case is ruled out.
#[verifier::external_body]
fn big_sub(a: &num_bigint::BigUint, b: &num_bigint::BigUint) -> (r: num_bigint::BigUint)
    requires
        big_val(*b) <= big_val(*a),
    ensures
        big_val(r) == big_val(*a) - big_val(*b),
{
    a - b
}

/// Relies on `num_bigint::BigUint`'s `Mul`: big-integer multiplication.
#[verifier::external_body]
fn big_mul(a: &num_bigint::BigUint, b: &num_bigint::BigUint) -> (r: num_bigint::BigUint)
    ensures
        big_val(r) == big_val(*a) * big_val(*b),
{
    a * b
}

/// Relies on `num_bigint::BigUint`'s `Div`: truncating big-integer division,
/// which panics on a zero divisor, so that case is ruled out.
#[verifier::external_body]
fn big_div(a: &num_bigint::BigUint, b: &num_bigint::BigUint) -> (r: num_bigint::BigUint)
    requires
        big_val(*b) > 0,
    ensures
        big_val(r) == big_val(*a) / big_val(*b),
{
    a / b
}

/// Relies on `num_bigint::BigUint`'s `Rem`: the non-negative remainder,
/// which panics on a zero divisor, so that case is ruled out.
#[verifier::external_body]
fn big_rem(a: &num_bigint::BigUint, b: &num_bigint::BigUint) -> (r: num_bigint::BigUint)
    requires
        big_val(*b) > 0,
    ensures
        big_val(r) == big_val(*a) % big_val(*b),
{
    a % b
}

/// Relies on `num_bigint::BigUint`'s `PartialEq`: equal exactly when the
/// values are equal, since the representation is canonical.
#[verifier::external_body]
fn big_eq(a: &num_bigint::BigUint, b: &num_bigint::BigUint) -> (r: bool)
    ensures
        r == (big_val(*a) == big_val(*b)),
{
    a == b
}

/// Relies on `num_bigint::BigUint`'s `PartialOrd`: ordered by value.
#[verifier::external_body]
fn big_lt(a: &num_bigint::BigUint, b: &num_bigint::BigUint) -> (r: bool)
    ensures
        r == (big_val(*a) < big_val(*b)),
{
    a < b
}

/// Relies on `num_bigint::BigUint`'s `Clone`: the copy holds the same value.
#[verifier::external_body]
fn big_clone(b: &num_bigint::BigUint) -> (r: num_bigint::BigUint)
    ensures
        big_val(r) == big_val(*b),
{
    b.clone()
}

/// Relies on `rand::random`: three bytes drawn from the thread-local
/// generator; nothing is promised of their values.
#[verifier::external_body]
fn random_three_bytes() -> (r: Vec<u8>)
    ensures
        r@.len() == 3,
{
    let bytes: [u8; 3] = rand::random();
    bytes.to_vec()
}

/// An arbitrary-precision non-negative integer with value semantics: every
/// operation returns a new value. Its view is the number it holds.
#[allow(non_camel_case_types)]
pub struct uinf {
    n: num_bigint::BigUint,
}

impl View for uinf {
    type V = nat;

    closed spec fn view(&self) -> nat {
        big_val(self.n)
    }
}

impl Clone for uinf {
    fn clone(&self) -> (r: Self)
        ensures
            r@ == self@,
    {
        uinf { n: big_clone(&self.n) }
    }
}

impl uinf {
    /// Reads a big-endian byte sequence; any input is valid, empty gives zero.
    pub fn from_bytes_be(bytes: &[u8]) -> (r: Self)
        ensures
            r@ == be_value(bytes@),
    {
        uinf { n: big_from_bytes_be(bytes) }
    }

    /// Reads a little-endian byte sequence; any input is valid, empty gives zero.
    pub fn from_bytes_le(bytes: &[u8]) -> (r: Self)
        ensures
            r@ == le_value(bytes@),
    {
        uinf { n: big_from_bytes_le(bytes) }
    }

    /// The shortest big-endian encoding of the value; zero encodes as the
    /// single byte `0`.
    pub fn to_bytes_be(&self) -> (r: Vec<u8>)
        ensures
            r@ == be_encoding(self@),
    {
        big_to_bytes_be(&self.n)
    }

    /// The shortest little-endian encoding of the value; zero encodes as the
    /// single byte `0`.
    pub fn to_bytes_le(&self) -> (r: Vec<u8>)
        ensures
            r@ == le_encoding(self@),
    {
        big_to_bytes_le(&self.n)
    }

    pub fn zero() -> (r: Self)
        ensures
            r@ == 0,
    {
        uinf { n: big_from_u8(0) }
    }

    pub fn one() -> (r: Self)
        ensures
            r@ == 1,
    {
        uinf { n: big_from_u8(1) }
    }

    pub fn two() -> (r: Self)
        ensures
            r@ == 2,
    {
        uinf { n: big_from_u8(2) }
    }

    /// A value built from three random bytes, so at most `2^24 - 1`; the
    /// narrow range is deliberate.
    pub fn gen() -> (r: Self)
        ensures
            r@ < 0x1000000,
    {
        let bytes = random_three_bytes();
        let r = uinf::from_bytes_be(bytes.as_slice());
        proof {
            lemma_be_value_three_bytes(bytes@);
        }
        r
    }

    pub fn add(&self, other: &Self) -> (r: Self)
        ensures
            r@ == self@ + other@,
    {
        uinf { n: big_add(&self.n, &other.n) }
    }

    /// Subtraction; an underflow is signalled with `None` rather than wrapping.
    pub fn checked_sub(&self, other: &Self) -> (r: Option<Self>)
        ensures
            (r is Some) == (other@ <= self@),
            r matches Some(d) ==> d@ == self@ - other@,
    {
        if big_lt(&self.n, &other.n) {
            None
        } else {
            Some(uinf { n: big_sub(&self.n, &other.n) })
        }
    }

    pub fn mul(&self, other: &Self) -> (r: Self)
        ensures
            r@ == self@ * other@,
    {
        uinf { n: big_mul(&self.n, &other.n) }
    }

    /// Truncating integer division; a zero divisor is out of the domain.
    pub fn div(&self, other: &Self) -> (r: Self)
        requires
            other@ > 0,
        ensures
            r@ == self@ / other@,
    {
        uinf { n: big_div(&self.n, &other.n) }
    }

    /// The non-negative remainder; a zero divisor is out of the domain.
    pub fn rem(&self, other: &Self) -> (r: Self)
        requires
            other@ > 0,
        ensures
            r@ == self@ % other@,
    {
        uinf { n: big_rem(&self.n, &other.n) }
    }

    pub fn equals(&self, other: &Self) -> (r: bool)
        ensures
            r == (self@ == other@),
    {
        big_eq(&self.n, &other.n)
    }

    pub fn lt(&self, other: &Self) -> (r: bool)
        ensures
            r == (self@ < other@),
    {
        big_lt(&self.n, &other.n)
    }
}

} // verus!
