//! Arbitrary-precision numbers.
//!
//! The numbers themselves are those of `num_bigint`. This module gives
//! each a mathematical value and states, without proof, what the
//! operations of `num_bigint` do to that value.

use num_bigint::{BigInt, BigUint, Sign};
use vstd::prelude::*;

verus! {

/// Natural number (including 0).
pub type Natural = BigUint;

/// Integer of any size and sign.
pub type Integer = BigInt;

/// `num_bigint::BigUint`. Of a value of it nothing is known here but
/// the number that it holds.
#[verifier::external_type_specification]
#[verifier::external_body]
pub struct ExBigUint(BigUint);

/// `num_bigint::BigInt`. Of a value of it nothing is known here but
/// the number that it holds.
#[verifier::external_type_specification]
#[verifier::external_body]
pub struct ExBigInt(BigInt);

/// The natural number that a [`Natural`] holds.
pub uninterp spec fn natural_value(n: BigUint) -> nat;

/// The integer that an [`Integer`] holds.
pub uninterp spec fn integer_value(n: BigInt) -> int;

/// `BigUint::from(u64)`: the result holds `n`.
#[verifier::external_body]
pub(crate) fn natural_from_u64(n: u64) -> (r: BigUint)
    ensures
        natural_value(r) == n,
{
    BigUint::from(n)
}

/// `BigUint::clone`: the copy holds the same number.
#[verifier::external_body]
pub(crate) fn natural_clone(a: &BigUint) -> (r: BigUint)
    ensures
        natural_value(r) == natural_value(*a),
{
    a.clone()
}

/// `BigUint::eq`: two naturals compare equal exactly when they hold the
/// same number.
#[verifier::external_body]
pub(crate) fn natural_eq(a: &BigUint, b: &BigUint) -> (r: bool)
    ensures
        r == (natural_value(*a) == natural_value(*b)),
{
    a == b
}

/// `BigUint::le`: the order of two naturals is that of the numbers
/// they hold.
#[verifier::external_body]
pub(crate) fn natural_le(a: &BigUint, b: &BigUint) -> (r: bool)
    ensures
        r == (natural_value(*a) <= natural_value(*b)),
{
    a <= b
}

/// `&BigUint + &BigUint`: the sum.
#[verifier::external_body]
pub(crate) fn natural_add(a: &BigUint, b: &BigUint) -> (r: BigUint)
    ensures
        natural_value(r) == natural_value(*a) + natural_value(*b),
{
    a + b
}

/// `&BigUint - &BigUint`: the difference. The subtraction of
/// `num_bigint` panics where the result would be negative, so the
/// callers prove that it is not.
#[verifier::external_body]
pub(crate) fn natural_sub(a: &BigUint, b: &BigUint) -> (r: BigUint)
    requires
        natural_value(*a) >= natural_value(*b),
    ensures
        natural_value(r) == natural_value(*a) - natural_value(*b),
{
    a - b
}

/// `&BigUint * &BigUint`: the product.
#[verifier::external_body]
pub(crate) fn natural_mul(a: &BigUint, b: &BigUint) -> (r: BigUint)
    ensures
        natural_value(r) == natural_value(*a) * natural_value(*b),
{
    a * b
}

/// `&BigUint / &BigUint`: the quotient, rounded down. The division of
/// `num_bigint` panics on a zero divisor, so the callers prove that it
/// is not zero.
#[verifier::external_body]
pub(crate) fn natural_div(a: &BigUint, b: &BigUint) -> (r: BigUint)
    requires
        natural_value(*b) != 0,
    ensures
        natural_value(r) == natural_value(*a) / natural_value(*b),
{
    a / b
}

/// `BigInt::from(BigUint)`: the integer with the same value.
#[verifier::external_body]
pub(crate) fn integer_from_natural(n: BigUint) -> (r: BigInt)
    ensures
        integer_value(r) == natural_value(n),
{
    BigInt::from(n)
}

/// `BigInt::from(i64)`: the result holds `n`.
#[verifier::external_body]
pub(crate) fn integer_from_i64(n: i64) -> (r: BigInt)
    ensures
        integer_value(r) == n,
{
    BigInt::from(n)
}

/// `BigInt::clone`: the copy holds the same number.
#[verifier::external_body]
pub(crate) fn integer_clone(a: &BigInt) -> (r: BigInt)
    ensures
        integer_value(r) == integer_value(*a),
{
    a.clone()
}

/// `BigInt::eq`: two integers compare equal exactly when they hold the
/// same number.
#[verifier::external_body]
pub(crate) fn integer_eq(a: &BigInt, b: &BigInt) -> (r: bool)
    ensures
        r == (integer_value(*a) == integer_value(*b)),
{
    a == b
}

/// `-BigInt`: the negation.
#[verifier::external_body]
pub(crate) fn integer_neg(a: BigInt) -> (r: BigInt)
    ensures
        integer_value(r) == -integer_value(a),
{
    -a
}

/// `&BigInt + &BigInt`: the sum.
#[verifier::external_body]
pub(crate) fn integer_add(a: &BigInt, b: &BigInt) -> (r: BigInt)
    ensures
        integer_value(r) == integer_value(*a) + integer_value(*b),
{
    a + b
}

/// `BigInt::sign`: whether the sign is `Sign::Minus`, which it is
/// exactly for the numbers below zero.
#[verifier::external_body]
pub(crate) fn integer_is_negative(a: &BigInt) -> (r: bool)
    ensures
        r == (integer_value(*a) < 0),
{
    match a.sign() {
        Sign::Minus => true,
        Sign::NoSign => false,
        Sign::Plus => false,
    }
}

/// `BigInt::magnitude`: the absolute value.
#[verifier::external_body]
pub(crate) fn integer_magnitude(a: &BigInt) -> (r: &BigUint)
    ensures
        natural_value(*r) == vstd::math::abs(integer_value(*a)),
{
    a.magnitude()
}

} // verus!
