//! Arbitrary-precision non-negative integers, supplied by `num_bigint`.
//!
//! A `BigUint` is a growable vector of base-2^64 digits; the spec-level
//! name `limbs` stands for those digits, least significant first, and
//! `nat_of` for the integer they denote.  Every operation the library
//! needs is wrapped here with a contract over `nat_of`.

use vstd::prelude::*;

verus! {

#[verifier::external_type_specification]
#[verifier::external_body]
pub struct ExBigUint(num_bigint::BigUint);

// The base-2^64 digits that a `BigUint` holds, least significant first,
// with no trailing zero digit, as `BigUint::to_u64_digits` hands them out.
pub uninterp spec fn limbs(n: num_bigint::BigUint) -> Seq<u64>;

/// The integer denoted by a sequence of base-2^64 digits, least significant first.
pub open spec fn limbs_value(s: Seq<u64>) -> nat
    decreases s.len(),
{
    if s.len() == 0 {
        0
    } else {
        (s[0] + 0x1_0000_0000_0000_0000 * limbs_value(s.skip(1))) as nat
    }
}

/// The integer value of a `BigUint`.
pub open spec fn nat_of(n: num_bigint::BigUint) -> nat {
    limbs_value(limbs(n))
}

/// Plain exponentiation: `b` to the power `e`.
pub open spec fn pow_nat(b: nat, e: nat) -> nat
    decreases e,
{
    if e == 0 {
        1
    } else {
        b * pow_nat(b, (e - 1) as nat)
    }
}

/// The integer denoted by a big-endian byte string.
pub open spec fn be_value(s: Seq<u8>) -> nat
    decreases s.len(),
{
    if s.len() == 0 {
        0
    } else {
        (be_value(s.drop_last()) * 256 + s.last()) as nat
    }
}

/// Relies on `num_bigint::BigUint::from::<u64>`: the built value denotes `x`.
#[verifier::external_body]
pub fn from_u64(x: u64) -> (r: num_bigint::BigUint)
    ensures
        nat_of(r) == x,
{
    num_bigint::BigUint::from(x)
}

/// Relies on `Clone for num_bigint::BigUint`: the copy holds the same digits.
#[verifier::external_body]
pub fn clone_big(a: &num_bigint::BigUint) -> (r: num_bigint::BigUint)
    ensures
        nat_of(r) == nat_of(*a),
{
    a.clone()
}

/// Relies on `Add for &num_bigint::BigUint`: the sum of the two values.
#[verifier::external_body]
pub fn add_big(a: &num_bigint::BigUint, b: &num_bigint::BigUint) -> (r: num_bigint::BigUint)
    ensures
        nat_of(r) == nat_of(*a) + nat_of(*b),
{
    a + b
}

/// Relies on `Sub for &num_bigint::BigUint`: the difference of the two
/// values; it panics on underflow, so the subtrahend may not exceed the minuend.
#[verifier::external_body]
pub fn sub_big(a: &num_bigint::BigUint, b: &num_bigint::BigUint) -> (r: num_bigint::BigUint)
    requires
        nat_of(*b) <= nat_of(*a),
    ensures
        nat_of(r) == nat_of(*a) - nat_of(*b),
{
    a - b
}

/// Relies on `Mul for &num_bigint::BigUint`: the product of the two values.
#[verifier::external_body]
pub fn mul_big(a: &num_bigint::BigUint, b: &num_bigint::BigUint) -> (r: num_bigint::BigUint)
    ensures
        nat_of(r) == nat_of(*a) * nat_of(*b),
{
    a * b
}

/// Relies on `Rem for &num_bigint::BigUint`: the remainder of dividing `a`
/// by `m`; it panics when the divisor is zero, so that case is kept out.
#[verifier::external_body]
pub fn rem_big(a: &num_bigint::BigUint, m: &num_bigint::BigUint) -> (r: num_bigint::BigUint)
    requires
        nat_of(*m) > 0,
    ensures
        nat_of(r) == nat_of(*a) % nat_of(*m),
{
    a % m
}

/// Relies on `num_bigint::BigUint::modpow`: `(base ^ exponent) % modulus`;
/// it panics when the modulus is zero, so that case is kept out.
#[verifier::external_body]
pub fn modpow_big(
    base: &num_bigint::BigUint,
    exponent: &num_bigint::BigUint,
    modulus: &num_bigint::BigUint,
) -> (r: num_bigint::BigUint)
    requires
        nat_of(*modulus) > 0,
    ensures
        nat_of(r) == pow_nat(nat_of(*base), nat_of(*exponent)) % nat_of(*modulus),
{
    base.modpow(exponent, modulus)
}

/// Relies on `PartialEq for num_bigint::BigUint`: it compares the digit
/// vectors, which are kept in a canonical form with no trailing zero digit,
/// so digit equality coincides with value equality.
#[verifier::external_body]
pub fn eq_big(a: &num_bigint::BigUint, b: &num_bigint::BigUint) -> (r: bool)
    ensures
        r == (limbs(*a) == limbs(*b)),
        r == (nat_of(*a) == nat_of(*b)),
{
    a == b
}

/// Relies on `Ord for num_bigint::BigUint`: comparison orders by value.
#[verifier::external_body]
pub fn lt_big(a: &num_bigint::BigUint, b: &num_bigint::BigUint) -> (r: bool)
    ensures
        r == (nat_of(*a) < nat_of(*b)),
{
    a < b
}

/// Relies on `num_bigint::BigUint::bits`: the fewest bits that express the
/// value, so the value is below two to that power; zero needs zero bits.
#[verifier::external_body]
pub fn bits_big(a: &num_bigint::BigUint) -> (r: u64)
    ensures
        nat_of(*a) < pow_nat(2, r as nat),
        nat_of(*a) == 0 ==> r == 0,
{
    a.bits()
}

/// Relies on `num_bigint::BigUint::bit`: whether bit `i` of the value is set.
#[verifier::external_body]
pub fn bit_big(a: &num_bigint::BigUint, i: u64) -> (r: bool)
    ensures
        r == ((nat_of(*a) / pow_nat(2, i as nat)) % 2 == 1),
{
    a.bit(i)
}

/// Relies on `num_bigint::BigUint::from_bytes_be`: the value denoted by the
/// bytes read in big-endian order.
#[verifier::external_body]
pub fn from_bytes_be(bytes: &Vec<u8>) -> (r: num_bigint::BigUint)
    ensures
        nat_of(r) == be_value(bytes@),
{
    num_bigint::BigUint::from_bytes_be(bytes)
}

} // verus!
