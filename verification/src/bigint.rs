//! Trusted boundary around `num_bigint::BigInt`: every stake quantity is an
//! arbitrary-precision integer, modelled in specifications by the
//! uninterpreted `big_value`. Each wrapper states only what the crate's
//! source shows of the one function it calls.

use vstd::prelude::*;
use num_bigint::BigInt;
use core::str::FromStr;
use crate::amount::{valid_bigint_str, bigint_str_value, canonical_dec_str};
use crate::strutil::is_digit_char;

verus! {

#[verifier::external_type_specification]
#[verifier::external_body]
pub struct ExBigInt(BigInt);

/// The mathematical integer that a `BigInt` holds.
pub uninterp spec fn big_value(b: BigInt) -> int;

/// Relies on `num_bigint::BigInt::from_str` (base 10): it accepts an optional
/// single leading '-' or '+' followed by decimal digits among which '_'
/// separators are skipped, and rejects anything else.
#[verifier::external_body]
pub(crate) fn big_from_str(s: &str) -> (r: Option<BigInt>)
    ensures
        r is Some <==> valid_bigint_str(s@),
        r matches Some(b) ==> big_value(b) == bigint_str_value(s@),
{
    BigInt::from_str(s).ok()
}

/// Relies on the `Display` impl of `num_bigint::BigInt`: a '-' when the value
/// is negative, then the decimal digits of the magnitude with no leading
/// zero (zero renders as "0"), so the rendering is canonical.
#[verifier::external_body]
pub(crate) fn big_to_string(b: &BigInt) -> (r: String)
    ensures
        r@.len() >= 1,
        valid_bigint_str(r@),
        canonical_dec_str(r@),
        bigint_str_value(r@) == big_value(*b),
        big_value(*b) >= 0 ==> forall|i: int| 0 <= i < r@.len() ==> is_digit_char(r@[i]),
{
    b.to_string()
}

/// Relies on `From<u64>` for `num_bigint::BigInt`: exact conversion.
#[verifier::external_body]
pub(crate) fn big_from_u64(x: u64) -> (r: BigInt)
    ensures
        big_value(r) == x as int,
{
    BigInt::from(x)
}

/// Relies on `TryFrom<&BigInt>` for `u64`: `Ok` exactly when the value fits.
#[verifier::external_body]
pub(crate) fn big_to_u64(b: &BigInt) -> (r: Option<u64>)
    ensures
        r is Some <==> 0 <= big_value(*b) <= u64::MAX,
        r matches Some(v) ==> v as int == big_value(*b),
{
    u64::try_from(b).ok()
}

/// Relies on the `Add` impl of `num_bigint::BigInt`: exact integer addition.
#[verifier::external_body]
pub(crate) fn big_add(a: &BigInt, b: &BigInt) -> (r: BigInt)
    ensures
        big_value(r) == big_value(*a) + big_value(*b),
{
    a + b
}

/// Relies on the `Sub` impl of `num_bigint::BigInt`: exact integer
/// subtraction.
#[verifier::external_body]
pub(crate) fn big_sub(a: &BigInt, b: &BigInt) -> (r: BigInt)
    ensures
        big_value(r) == big_value(*a) - big_value(*b),
{
    a - b
}

/// Relies on the `Mul` impl of `num_bigint::BigInt`: exact integer
/// multiplication.
#[verifier::external_body]
pub(crate) fn big_mul(a: &BigInt, b: &BigInt) -> (r: BigInt)
    ensures
        big_value(r) == big_value(*a) * big_value(*b),
{
    a * b
}

/// Relies on the `Div` impl of `num_bigint::BigInt`: division truncating
/// toward zero, which on non-negative operands is floor division.
#[verifier::external_body]
pub(crate) fn big_div(a: &BigInt, b: &BigInt) -> (r: BigInt)
    requires
        big_value(*a) >= 0,
        big_value(*b) > 0,
    ensures
        big_value(r) == big_value(*a) / big_value(*b),
{
    a / b
}

/// Relies on the `Ord` impl of `num_bigint::BigInt`: numeric order.
#[verifier::external_body]
pub(crate) fn big_lt(a: &BigInt, b: &BigInt) -> (r: bool)
    ensures
        r == (big_value(*a) < big_value(*b)),
{
    a < b
}

/// Zero as a `BigInt`.
pub(crate) fn big_zero() -> (r: BigInt)
    ensures
        big_value(r) == 0,
{
    big_from_u64(0)
}

/// Whether a `BigInt` is zero.
pub(crate) fn big_is_zero(b: &BigInt) -> (r: bool)
    ensures
        r == (big_value(*b) == 0),
{
    let z = big_zero();
    !big_lt(b, &z) && !big_lt(&z, b)
}

/// Whether a `BigInt` is negative.
pub(crate) fn big_is_negative(b: &BigInt) -> (r: bool)
    ensures
        r == (big_value(*b) < 0),
{
    let z = big_zero();
    big_lt(b, &z)
}

} // verus!
