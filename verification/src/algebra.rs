//! Modular-exponentiation facts the protocol proofs rest on.
//!
//! The key observation is that once `alpha^q mod p == 1`, exponents of
//! `alpha` only matter modulo `q`; and every power of `alpha` taken mod `p`
//! inherits the same property.

use vstd::prelude::*;
use vstd::arithmetic::power::{pow, lemma_pow_adds, lemma_pow_multiplies, lemma_pow_mod_noop,
    lemma1_pow, lemma_pow_positive};
use vstd::arithmetic::div_mod::{lemma_fundamental_div_mod, lemma_mul_mod_noop_general,
    lemma_small_mod, lemma_mod_twice, lemma_mod_division_less_than_divisor};

verus! {

/// When `alpha^q mod p == 1`, the exponent of `alpha` can be reduced mod `q`
/// without changing the residue mod `p`.
pub proof fn lemma_pow_mod_cycle(alpha: nat, p: nat, q: nat, m: nat)
    requires
        p > 1,
        q > 0,
        alpha > 0,
        pow(alpha as int, q) % (p as int) == 1,
    ensures
        pow(alpha as int, m) % (p as int) == pow(alpha as int, (m % q)) % (p as int),
{
    let a = alpha as int;
    let pi = p as int;
    let d = m / q;
    let r = m % q;
    lemma_fundamental_div_mod(m as int, q as int);
    assert(m == q * d + r);
    lemma_pow_adds(a, (q * d) as nat, r);
    assert(pow(a, m) == pow(a, (q * d) as nat) * pow(a, r));
    lemma_pow_multiplies(a, q, d);
    assert(pow(a, (q * d) as nat) == pow(pow(a, q), d));
    // pow(a, q*d) mod p == 1
    lemma_pow_mod_noop(pow(a, q), d, pi);
    assert(pow(pow(a, q) % pi, d) % pi == pow(pow(a, q), d) % pi);
    lemma1_pow(d);
    assert(pow(1, d) == 1);
    lemma_small_mod(1, p);
    assert(pow(pow(a, q), d) % pi == 1);
    // combine the two factors under the modulus
    lemma_mul_mod_noop_general(pow(a, (q * d) as nat), pow(a, r), pi);
    assert((pow(a, (q * d) as nat) * pow(a, r)) % pi == ((pow(a, (q * d) as nat) % pi) * (pow(
        a,
        r,
    ) % pi)) % pi);
    assert(pow(a, m) % pi == (1 * (pow(a, r) % pi)) % pi);
    lemma_mod_twice(pow(a, r), pi);
}

/// Exponents congruent mod `q` give the same residue mod `p`.
pub proof fn lemma_pow_mod_congruent(alpha: nat, p: nat, q: nat, i: nat, j: nat)
    requires
        p > 1,
        q > 0,
        alpha > 0,
        pow(alpha as int, q) % (p as int) == 1,
        i % q == j % q,
    ensures
        pow(alpha as int, i) % (p as int) == pow(alpha as int, j) % (p as int),
{
    lemma_pow_mod_cycle(alpha, p, q, i);
    lemma_pow_mod_cycle(alpha, p, q, j);
}

/// Any power of `alpha` reduced mod `p` again has order dividing `q`:
/// `(alpha^r mod p)^q mod p == 1`.
pub proof fn lemma_derived_base_cycle(alpha: nat, p: nat, q: nat, r: nat)
    requires
        p > 1,
        q > 0,
        alpha > 0,
        pow(alpha as int, q) % (p as int) == 1,
    ensures
        pow((pow(alpha as int, r) % (p as int)), q) % (p as int) == 1,
        pow(alpha as int, r) % (p as int) >= 0,
{
    let a = alpha as int;
    let pi = p as int;
    lemma_pow_mod_noop(pow(a, r), q, pi);
    assert(pow(pow(a, r) % pi, q) % pi == pow(pow(a, r), q) % pi);
    lemma_pow_multiplies(a, r, q);
    assert(pow(pow(a, r), q) == pow(a, r * q));
    lemma_pow_multiplies(a, q, r);
    assert(pow(pow(a, q), r) == pow(a, q * r));
    assert(r * q == q * r) by (nonlinear_arith);
    lemma_pow_mod_noop(pow(a, q), r, pi);
    lemma1_pow(r);
    lemma_small_mod(1, p);
    lemma_pow_positive(a, r);
    lemma_mod_division_less_than_divisor(pow(a, r), pi);
    assert(pow(a, r) % pi >= 0);
}

} // verus!
