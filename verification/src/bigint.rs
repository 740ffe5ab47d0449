//! Trusted bindings to the arbitrary-precision unsigned integers of the
//! `num_bigint` crate. The protocol treats big integers as an external
//! collaborator: each operation the engine needs is wrapped once, with a
//! contract over the abstract value `big_value` that the wrapped routine
//! is relied upon to satisfy.

use crate::arith::bytes_val;
use num_bigint::BigUint;
use num_bigint::RandBigInt;
use vstd::arithmetic::power::pow;
use vstd::prelude::*;

verus! {

#[verifier::external_type_specification]
#[verifier::external_body]
pub struct ExBigUint(BigUint);

/// The natural number that a `BigUint` holds.
pub uninterp spec fn big_value(b: BigUint) -> nat;

/// Relies on `BigUint: From<u64>`: the conversion keeps the numeric value.
#[verifier::external_body]
pub(crate) fn big_from_u64(x: u64) -> (r: BigUint)
    ensures
        big_value(r) == x,
{
    BigUint::from(x)
}

/// Relies on `BigUint::from_bytes_be`: the bytes are read as a big-endian
/// unsigned integer, the empty slice giving zero.
#[verifier::external_body]
pub(crate) fn big_from_bytes_be(bytes: &[u8]) -> (r: BigUint)
    ensures
        big_value(r) == bytes_val(bytes@),
{
    BigUint::from_bytes_be(bytes)
}

/// Relies on `BigUint::to_bytes_be`: the big-endian encoding of the value,
/// never empty (zero encodes as one zero byte).
#[verifier::external_body]
pub(crate) fn big_to_bytes_be(b: &BigUint) -> (r: Vec<u8>)
    ensures
        bytes_val(r@) == big_value(*b),
        r@.len() >= 1,
{
    b.to_bytes_be()
}

/// Relies on `BigUint: Clone`: the copy holds the same value.
#[verifier::external_body]
pub(crate) fn big_clone(b: &BigUint) -> (r: BigUint)
    ensures
        big_value(r) == big_value(*b),
{
    b.clone()
}

/// Relies on `BigUint: Ord`: comparison orders by numeric value.
#[verifier::external_body]
pub(crate) fn big_lt(a: &BigUint, b: &BigUint) -> (r: bool)
    ensures
        r == (big_value(*a) < big_value(*b)),
{
    a < b
}

/// Relies on `BigUint: PartialEq`: the representation is canonical, so
/// equality of values and of representations coincide.
#[verifier::external_body]
pub(crate) fn big_eq(a: &BigUint, b: &BigUint) -> (r: bool)
    ensures
        r == (big_value(*a) == big_value(*b)),
{
    a == b
}

/// Relies on `BigUint: Add`: exact addition.
#[verifier::external_body]
pub(crate) fn big_add(a: &BigUint, b: &BigUint) -> (r: BigUint)
    ensures
        big_value(r) == big_value(*a) + big_value(*b),
{
    a + b
}

/// Relies on `BigUint: Sub`, which panics on underflow and is therefore
/// only called on a minuend at least as large as the subtrahend.
#[verifier::external_body]
pub(crate) fn big_sub(a: &BigUint, b: &BigUint) -> (r: BigUint)
    requires
        big_value(*a) >= big_value(*b),
    ensures
        big_value(r) == big_value(*a) - big_value(*b),
{
    a - b
}

/// Relies on `BigUint: Mul`: exact multiplication.
#[verifier::external_body]
pub(crate) fn big_mul(a: &BigUint, b: &BigUint) -> (r: BigUint)
    ensures
        big_value(r) == big_value(*a) * big_value(*b),
{
    a * b
}

/// Relies on `BigUint: Rem`, which panics on a zero divisor and is
/// therefore only called with a positive modulus.
#[verifier::external_body]
pub(crate) fn big_rem(a: &BigUint, m: &BigUint) -> (r: BigUint)
    requires
        big_value(*m) > 0,
    ensures
        big_value(r) == big_value(*a) % big_value(*m),
{
    a % m
}

/// Relies on `BigUint::modpow`: returns `(self ^ exponent) % modulus` and
/// panics on a zero modulus, so it is only called with a positive one.
#[verifier::external_body]
pub(crate) fn big_modpow(base: &BigUint, exponent: &BigUint, modulus: &BigUint) -> (r: BigUint)
    requires
        big_value(*modulus) > 0,
    ensures
        big_value(r) == pow(big_value(*base) as int, big_value(*exponent)) % (big_value(
            *modulus,
        ) as int),
{
    base.modpow(exponent, modulus)
}

/// Relies on `RandBigInt::gen_biguint_below` over the thread-local
/// cryptographically secure generator: it panics on a zero bound and
/// returns a value strictly below a positive one. Nothing further is
/// promised of a random draw.
#[verifier::external_body]
pub(crate) fn big_random_below(bound: &BigUint) -> (r: BigUint)
    requires
        big_value(*bound) > 0,
    ensures
        big_value(r) < big_value(*bound),
{
    rand::thread_rng().gen_biguint_below(bound)
}

} // verus!
