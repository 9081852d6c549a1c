//! Trusted bridge to the `num_bigint` crate.
//!
//! All multi-precision arithmetic is delegated to `num_bigint::BigUint`.
//! Values cross the boundary as big-endian byte strings; each wrapper's
//! contract states the arithmetic fact over `be_val`, the byte strings'
//! numeric denotation.

use vstd::prelude::*;
use vstd::arithmetic::power::pow;
use crate::bytes::be_val;

verus! {

/// Relies on `BigUint::modpow` (and `from_bytes_be` / `to_bytes_be` for the
/// conversions): returns `base^exp mod m`. `modpow` panics on a zero
/// modulus, and its plain path returns 1 rather than 0 for a zero exponent,
/// so a modulus of at least 2 is required.
#[verifier::external_body]
pub(crate) fn big_mod_pow(base: &Vec<u8>, exp: &Vec<u8>, m: &Vec<u8>) -> (r: Vec<u8>)
    requires
        be_val(m@) > 1,
    ensures
        be_val(r@) == pow(be_val(base@) as int, be_val(exp@)) % (be_val(m@) as int),
{
    let b = num_bigint::BigUint::from_bytes_be(base);
    let e = num_bigint::BigUint::from_bytes_be(exp);
    let md = num_bigint::BigUint::from_bytes_be(m);
    b.modpow(&e, &md).to_bytes_be()
}

/// Relies on `BigUint`'s `Mul` impl: returns the product of the two values.
#[verifier::external_body]
pub(crate) fn big_mul(a: &Vec<u8>, b: &Vec<u8>) -> (r: Vec<u8>)
    ensures
        be_val(r@) == be_val(a@) * be_val(b@),
{
    let x = num_bigint::BigUint::from_bytes_be(a);
    let y = num_bigint::BigUint::from_bytes_be(b);
    (x * y).to_bytes_be()
}

/// Relies on `BigUint`'s `Rem` impl: returns `a mod m`. The division
/// routine panics on a zero modulus, so the modulus must be positive.
#[verifier::external_body]
pub(crate) fn big_mod(a: &Vec<u8>, m: &Vec<u8>) -> (r: Vec<u8>)
    requires
        be_val(m@) > 0,
    ensures
        be_val(r@) == be_val(a@) % be_val(m@),
{
    let x = num_bigint::BigUint::from_bytes_be(a);
    let md = num_bigint::BigUint::from_bytes_be(m);
    (x % md).to_bytes_be()
}

/// Relies on `BigUint`'s `Sub` impl: returns `a - b`. Subtraction panics
/// on underflow, so `b` must not exceed `a`.
#[verifier::external_body]
pub(crate) fn big_sub(a: &Vec<u8>, b: &Vec<u8>) -> (r: Vec<u8>)
    requires
        be_val(b@) <= be_val(a@),
    ensures
        be_val(r@) == be_val(a@) - be_val(b@),
{
    let x = num_bigint::BigUint::from_bytes_be(a);
    let y = num_bigint::BigUint::from_bytes_be(b);
    (x - y).to_bytes_be()
}

/// Relies on `BigUint`'s `Ord` impl: compares the two denoted values.
#[verifier::external_body]
pub(crate) fn big_ge(a: &Vec<u8>, b: &Vec<u8>) -> (r: bool)
    ensures
        r == (be_val(a@) >= be_val(b@)),
{
    let x = num_bigint::BigUint::from_bytes_be(a);
    let y = num_bigint::BigUint::from_bytes_be(b);
    x >= y
}

/// Relies on `RandBigInt::gen_biguint_below` over `rand::thread_rng`:
/// draws a value uniformly below `bound`. The draw asserts that the bound
/// is not zero; nothing beyond the range can be promised of a random value.
#[verifier::external_body]
pub fn generate_random_below(bound: &Vec<u8>) -> (r: Vec<u8>)
    requires
        be_val(bound@) > 0,
    ensures
        be_val(r@) < be_val(bound@),
{
    let b = num_bigint::BigUint::from_bytes_be(bound);
    let mut rng = rand::thread_rng();
    num_bigint::RandBigInt::gen_biguint_below(&mut rng, &b).to_bytes_be()
}

} // verus!
