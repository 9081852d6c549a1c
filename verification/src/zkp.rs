//! The Chaum-Pedersen identification protocol: key algebra, commitments,
//! challenge responses and the verification predicate.
//!
//! All values are carried as minimal big-endian byte strings; the contracts
//! speak of the numbers they denote. `solve_val` and `verify_val` are the
//! mathematical definitions of the response and of the verifier's check.

use vstd::prelude::*;
use vstd::arithmetic::power::pow;
use vstd::arithmetic::div_mod::{lemma_mul_mod_noop_general, lemma_mod_bound,
    lemma_fundamental_div_mod, lemma_fundamental_div_mod_converse_mod};
use crate::bytes::{be_val, min_be, min_of, strip_leading_zeros, bytes_eq, copy_bytes, lemma_min_be_unique};
use crate::bignum::{big_mod_pow, big_mul, big_mod, big_sub, big_ge, generate_random_below};
use crate::params::GroupParams;

verus! {

/// The prover's response: `s = (k - c*x) mod Q`, as a least non-negative
/// residue.
pub open spec fn solve_val(x: nat, k: nat, c: nat, q: nat) -> nat
    recommends
        q > 0,
{
    (((k as int) - (c as int) * (x as int)) % (q as int)) as nat
}

/// The verifier's check: `ka == alpha^s * a^c (mod p)` and
/// `kb == beta^s * b^c (mod p)`.
pub open spec fn verify_val(
    p: nat,
    alpha: nat,
    beta: nat,
    a: nat,
    b: nat,
    ka: nat,
    kb: nat,
    c: nat,
    s: nat,
) -> bool
    recommends
        p > 0,
{
    &&& ka == (pow(alpha as int, s) * pow(a as int, c)) % (p as int)
    &&& kb == (pow(beta as int, s) * pow(b as int, c)) % (p as int)
}

/// The byte strings a `PublicKey` holds.
pub struct PublicKeyView {
    pub a: Seq<u8>,
    pub b: Seq<u8>,
    pub alpha: Seq<u8>,
    pub beta: Seq<u8>,
}

impl PublicKeyView {
    pub open spec fn a_val(self) -> nat {
        be_val(self.a)
    }

    pub open spec fn b_val(self) -> nat {
        be_val(self.b)
    }

    pub open spec fn alpha_val(self) -> nat {
        be_val(self.alpha)
    }

    pub open spec fn beta_val(self) -> nat {
        be_val(self.beta)
    }

    /// All four components are in minimal form.
    pub open spec fn wf(self) -> bool {
        min_be(self.a) && min_be(self.b) && min_be(self.alpha) && min_be(self.beta)
    }
}

/// A voter's public commitment `(a, b, alpha, beta)` with `a = alpha^x`,
/// `b = beta^x` and `beta = alpha^r`, all mod P.
pub struct PublicKey {
    a: Vec<u8>,
    b: Vec<u8>,
    alpha: Vec<u8>,
    beta: Vec<u8>,
}

impl View for PublicKey {
    type V = PublicKeyView;

    closed spec fn view(&self) -> PublicKeyView {
        PublicKeyView { a: self.a@, b: self.b@, alpha: self.alpha@, beta: self.beta@ }
    }
}

/// A voter's secret exponent.
pub struct SecretKey {
    secret: Vec<u8>,
}

impl View for SecretKey {
    type V = nat;

    closed spec fn view(&self) -> nat {
        be_val(self.secret@)
    }
}

impl PublicKey {
    /// Builds a key from owned component byte strings; each component is
    /// reduced to its minimal form, keeping its value.
    pub fn new(a: Vec<u8>, b: Vec<u8>, alpha: Vec<u8>, beta: Vec<u8>) -> (r: PublicKey)
        ensures
            r@.wf(),
            r@.a == min_of(a@),
            r@.b == min_of(b@),
            r@.alpha == min_of(alpha@),
            r@.beta == min_of(beta@),
            r@.a_val() == be_val(a@),
            r@.b_val() == be_val(b@),
            r@.alpha_val() == be_val(alpha@),
            r@.beta_val() == be_val(beta@),
            min_be(a@) ==> r@.a == a@,
            min_be(b@) ==> r@.b == b@,
            min_be(alpha@) ==> r@.alpha == alpha@,
            min_be(beta@) ==> r@.beta == beta@,
    {
        PublicKey::from_bytes_be(&a, &b, &alpha, &beta)
    }

    /// Builds a key from borrowed big-endian byte strings; leading zero
    /// bytes are stripped, so values are kept and minimal inputs come back
    /// unchanged.
    pub fn from_bytes_be(a: &Vec<u8>, b: &Vec<u8>, alpha: &Vec<u8>, beta: &Vec<u8>) -> (r:
        PublicKey)
        ensures
            r@.wf(),
            r@.a == min_of(a@),
            r@.b == min_of(b@),
            r@.alpha == min_of(alpha@),
            r@.beta == min_of(beta@),
            r@.a_val() == be_val(a@),
            r@.b_val() == be_val(b@),
            r@.alpha_val() == be_val(alpha@),
            r@.beta_val() == be_val(beta@),
            min_be(a@) ==> r@.a == a@,
            min_be(b@) ==> r@.b == b@,
            min_be(alpha@) ==> r@.alpha == alpha@,
            min_be(beta@) ==> r@.beta == beta@,
    {
        PublicKey {
            a: strip_leading_zeros(a),
            b: strip_leading_zeros(b),
            alpha: strip_leading_zeros(alpha),
            beta: strip_leading_zeros(beta),
        }
    }

    /// First commitment component, minimal big-endian.
    pub fn a(&self) -> (r: &Vec<u8>)
        ensures
            r@ == self@.a,
    {
        &self.a
    }

    /// Second commitment component, minimal big-endian.
    pub fn b(&self) -> (r: &Vec<u8>)
        ensures
            r@ == self@.b,
    {
        &self.b
    }

    /// The generator the key was built over, minimal big-endian.
    pub fn alpha(&self) -> (r: &Vec<u8>)
        ensures
            r@ == self@.alpha,
    {
        &self.alpha
    }

    /// The secondary base `beta = alpha^r mod P`, minimal big-endian.
    pub fn beta(&self) -> (r: &Vec<u8>)
        ensures
            r@ == self@.beta,
    {
        &self.beta
    }

    /// Draws a fresh ephemeral `k` below Q and returns
    /// `(k, alpha^k mod P, beta^k mod P)`, the prover's first move.
    pub fn generate_challenge_request(&self, g: &GroupParams) -> (r: (Vec<u8>, Vec<u8>, Vec<u8>))
        requires
            g.wf(),
        ensures
            min_be(r.0@) && min_be(r.1@) && min_be(r.2@),
            be_val(r.0@) < g@.q,
            be_val(r.1@) == pow(self@.alpha_val() as int, be_val(r.0@)) % (g@.p as int),
            be_val(r.2@) == pow(self@.beta_val() as int, be_val(r.0@)) % (g@.p as int),
    {
        let k = generate_random_below(g.q());
        let k = strip_leading_zeros(&k);
        let ka = big_mod_pow(&self.alpha, &k, g.p());
        let ka = strip_leading_zeros(&ka);
        let kb = big_mod_pow(&self.beta, &k, g.p());
        let kb = strip_leading_zeros(&kb);
        (k, ka, kb)
    }

    /// Checks a response against a stored commitment: decides exactly
    /// `verify_val` on the denoted numbers.
    pub fn verify(
        &self,
        g: &GroupParams,
        ka: &Vec<u8>,
        kb: &Vec<u8>,
        challenge: &Vec<u8>,
        solution: &Vec<u8>,
    ) -> (r: bool)
        requires
            g.wf(),
        ensures
            r == verify_val(
                g@.p,
                self@.alpha_val(),
                self@.beta_val(),
                self@.a_val(),
                self@.b_val(),
                be_val(ka@),
                be_val(kb@),
                be_val(challenge@),
                be_val(solution@),
            ),
    {
        let p = g.p();
        let lhs1 = big_mod_pow(&self.alpha, solution, p);
        let rhs1 = big_mod_pow(&self.a, challenge, p);
        let prod1 = big_mul(&lhs1, &rhs1);
        let red1 = big_mod(&prod1, p);
        let red1 = strip_leading_zeros(&red1);
        let ka_min = strip_leading_zeros(ka);
        let cond1 = bytes_eq(&ka_min, &red1);
        proof {
            lemma_mul_mod_noop_general(
                pow(self@.alpha_val() as int, be_val(solution@)),
                pow(self@.a_val() as int, be_val(challenge@)),
                g@.p as int,
            );
            if be_val(ka_min@) == be_val(red1@) {
                lemma_min_be_unique(ka_min@, red1@);
            }
        }
        let lhs2 = big_mod_pow(&self.beta, solution, p);
        let rhs2 = big_mod_pow(&self.b, challenge, p);
        let prod2 = big_mul(&lhs2, &rhs2);
        let red2 = big_mod(&prod2, p);
        let red2 = strip_leading_zeros(&red2);
        let kb_min = strip_leading_zeros(kb);
        let cond2 = bytes_eq(&kb_min, &red2);
        proof {
            lemma_mul_mod_noop_general(
                pow(self@.beta_val() as int, be_val(solution@)),
                pow(self@.b_val() as int, be_val(challenge@)),
                g@.p as int,
            );
            if be_val(kb_min@) == be_val(red2@) {
                lemma_min_be_unique(kb_min@, red2@);
            }
        }
        cond1 && cond2
    }
}

/// Draws a challenge scalar uniformly below Q.
pub fn generate_challenge(g: &GroupParams) -> (r: Vec<u8>)
    requires
        g.wf(),
    ensures
        min_be(r@),
        be_val(r@) < g@.q,
{
    let c = generate_random_below(g.q());
    strip_leading_zeros(&c)
}

impl SecretKey {
    /// Wraps an owned secret, reduced to minimal form.
    pub fn new(secret: Vec<u8>) -> (r: SecretKey)
        ensures
            r@ == be_val(secret@),
    {
        SecretKey { secret: strip_leading_zeros(&secret) }
    }

    /// Wraps a borrowed big-endian secret, reduced to minimal form.
    pub fn from_bytes_be(bytes: &Vec<u8>) -> (r: SecretKey)
        ensures
            r@ == be_val(bytes@),
    {
        SecretKey { secret: strip_leading_zeros(bytes) }
    }

    /// Draws a fresh secret uniformly below Q.
    pub fn generate(g: &GroupParams) -> (r: SecretKey)
        requires
            g.wf(),
        ensures
            r@ < g@.q,
    {
        let secret = generate_random_below(g.q());
        SecretKey { secret: strip_leading_zeros(&secret) }
    }

    /// The secret exponent, minimal big-endian.
    pub fn secret(&self) -> (r: &Vec<u8>)
        ensures
            be_val(r@) == self@,
    {
        &self.secret
    }

    /// Derives the public commitment: draws `r` below Q, sets
    /// `beta = alpha^r mod P` and returns
    /// `(alpha^x mod P, beta^x mod P, alpha, beta)`.
    pub fn generate_public_key(&self, g: &GroupParams) -> (pk: PublicKey)
        requires
            g.wf(),
        ensures
            pk@.wf(),
            pk@.alpha_val() == g@.alpha,
            pk@.a_val() == pow(g@.alpha as int, self@) % (g@.p as int),
            pk@.b_val() == pow(pk@.beta_val() as int, self@) % (g@.p as int),
            exists|r: nat|
                r < g@.q && pk@.beta_val() == pow(g@.alpha as int, r) % (g@.p as int),
    {
        let rnd = generate_random_below(g.q());
        let beta = big_mod_pow(g.alpha(), &rnd, g.p());
        let beta = strip_leading_zeros(&beta);
        let alpha = copy_bytes(g.alpha());
        let a = big_mod_pow(&alpha, &self.secret, g.p());
        let a = strip_leading_zeros(&a);
        let b = big_mod_pow(&beta, &self.secret, g.p());
        let b = strip_leading_zeros(&b);
        let pk = PublicKey { a, b, alpha, beta };
        proof {
            let rv = be_val(rnd@);
            assert(rv < g@.q && pk@.beta_val() == pow(g@.alpha as int, rv) % (g@.p as int));
        }
        pk
    }

    /// Computes the response `s = (k - c*x) mod Q` as a least non-negative
    /// residue.
    pub fn solve(&self, g: &GroupParams, k: &Vec<u8>, challenge: &Vec<u8>) -> (r: Vec<u8>)
        requires
            g.wf(),
        ensures
            min_be(r@),
            be_val(r@) == solve_val(self@, be_val(k@), be_val(challenge@), g@.q),
    {
        let q = g.q();
        let cx = big_mul(challenge, &self.secret);
        let ghost kv = be_val(k@) as int;
        let ghost cxv = (be_val(challenge@) * self@) as int;
        let ghost qv = g@.q as int;
        if big_ge(k, &cx) {
            let diff = big_sub(k, &cx);
            let res = big_mod(&diff, q);
            let res = strip_leading_zeros(&res);
            proof {
                lemma_mod_bound(kv - cxv, qv);
            }
            res
        } else {
            let diff = big_sub(&cx, k);
            let m = big_mod(&diff, q);
            let m = strip_leading_zeros(&m);
            proof {
                lemma_mod_bound(cxv - kv, qv);
                lemma_fundamental_div_mod(cxv - kv, qv);
            }
            if m.len() == 0 {
                // (c*x - k) is a multiple of Q, so (k - c*x) mod Q == 0.
                proof {
                    let t = (cxv - kv) / qv;
                    assert(kv - cxv == (-t) * qv + 0) by (nonlinear_arith)
                        requires
                            cxv - kv == qv * t,
                    ;
                    lemma_fundamental_div_mod_converse_mod(kv - cxv, qv, -t, 0);
                }
                Vec::new()
            } else {
                let res = big_sub(q, &m);
                let res = strip_leading_zeros(&res);
                proof {
                    let mv = (cxv - kv) % qv;
                    let t = (cxv - kv) / qv;
                    assert(kv - cxv == (-t - 1) * qv + (qv - mv)) by (nonlinear_arith)
                        requires
                            cxv - kv == qv * t + mv,
                    ;
                    assert(be_val(m@) > 0) by {
                        if be_val(m@) == 0 {
                            lemma_min_be_unique(m@, Seq::<u8>::empty());
                        }
                    }
                    lemma_fundamental_div_mod_converse_mod(kv - cxv, qv, -t - 1, qv - mv);
                }
                res
            }
        }
    }
}

/// Serialisation round trip: rebuilding a well-formed public key from its
/// own component byte strings gives the key back unchanged.
pub proof fn lemma_public_key_round_trip(pk: PublicKeyView)
    requires
        pk.wf(),
    ensures
        (PublicKeyView {
            a: min_of(pk.a),
            b: min_of(pk.b),
            alpha: min_of(pk.alpha),
            beta: min_of(pk.beta),
        }) == pk,
{
    crate::bytes::lemma_min_of_identity(pk.a);
    crate::bytes::lemma_min_of_identity(pk.b);
    crate::bytes::lemma_min_of_identity(pk.alpha);
    crate::bytes::lemma_min_of_identity(pk.beta);
}

/// One half of the verification equation, for an arbitrary base `alpha`
/// whose order divides `q`: an honest commitment `alpha^k mod p` always
/// matches `alpha^s * (alpha^x mod p)^c mod p` when `s = (k - c*x) mod q`.
proof fn lemma_solve_matches_base(p: nat, q: nat, alpha: nat, x: nat, k: nat, c: nat)
    requires
        p > 1,
        q > 0,
        alpha > 0,
        pow(alpha as int, q) % (p as int) == 1,
    ensures
        pow(alpha as int, k) % (p as int) == (pow(alpha as int, solve_val(x, k, c, q)) * pow(
            (pow(alpha as int, x) % (p as int)),
            c,
        )) % (p as int),
{
    let ai = alpha as int;
    let pi = p as int;
    let qi = q as int;
    let s = solve_val(x, k, c, q);
    let e = (k as int) - (c as int) * (x as int);
    let xc = x * c;
    // fold the residue base a = alpha^x mod p back under the modulus
    vstd::arithmetic::power::lemma_pow_mod_noop(pow(ai, x), c, pi);
    lemma_mul_mod_noop_general(pow(ai, s), pow(pow(ai, x) % pi, c), pi);
    lemma_mul_mod_noop_general(pow(ai, s), pow(pow(ai, x), c), pi);
    vstd::arithmetic::power::lemma_pow_multiplies(ai, x, c);
    vstd::arithmetic::power::lemma_pow_adds(ai, s, xc);
    assert((pow(ai, s) * pow(pow(ai, x) % pi, c)) % pi == pow(ai, (s + xc) as nat) % pi);
    // the exponents s + x*c and k agree mod q
    assert(s == e % qi);
    assert((c as int) * (x as int) == xc as int) by (nonlinear_arith)
        requires
            xc == x * c,
    ;
    vstd::arithmetic::div_mod::lemma_add_mod_noop_right(xc as int, e, qi);
    assert((xc as int + e % qi) % qi == (xc as int + e) % qi);
    assert(xc as int + e == k as int);
    lemma_mod_bound(k as int, qi);
    assert(((s + xc) as nat) % q == k % q) by {
        assert((s + xc) as int == xc as int + e % qi);
    }
    crate::algebra::lemma_pow_mod_congruent(alpha, p, q, (s + xc) as nat, k);
}

/// Completeness of the protocol: for any secret `x`, blinding exponent `r`,
/// ephemeral `k` and challenge `c`, the honestly computed commitment
/// `(alpha^k, beta^k)` and response `solve_val(x, k, c, q)` satisfy the
/// verification predicate against the derived public key
/// `(alpha^x, beta^x, alpha, beta)` with `beta = alpha^r`, all mod `p`.
pub proof fn lemma_completeness(p: nat, q: nat, alpha: nat, r: nat, x: nat, k: nat, c: nat)
    requires
        crate::params::group_ok(p, q, alpha),
    ensures
        ({
            let beta = (pow(alpha as int, r) % (p as int)) as nat;
            let a = (pow(alpha as int, x) % (p as int)) as nat;
            let b = (pow(beta as int, x) % (p as int)) as nat;
            let ka = (pow(alpha as int, k) % (p as int)) as nat;
            let kb = (pow(beta as int, k) % (p as int)) as nat;
            verify_val(p, alpha, beta, a, b, ka, kb, c, solve_val(x, k, c, q))
        }),
{
    let ai = alpha as int;
    let pi = p as int;
    let beta = (pow(ai, r) % pi) as nat;
    lemma_solve_matches_base(p, q, alpha, x, k, c);
    crate::algebra::lemma_derived_base_cycle(alpha, p, q, r);
    assert(beta as int == pow(ai, r) % pi);
    if beta == 0 {
        vstd::arithmetic::power::lemma0_pow(q);
        vstd::arithmetic::div_mod::lemma_small_mod(0, p);
        assert(pow(beta as int, q) % pi == 0);
        assert(false);
    }
    lemma_solve_matches_base(p, q, beta, x, k, c);
}

/// The powers `alpha^0, ..., alpha^(q-1)` taken mod `p` are pairwise
/// distinct. This holds of a generator of an order-`q` subgroup for prime
/// `q`; it is the hypothesis under which the protocol is sound.
pub open spec fn powers_injective(alpha: nat, p: nat, q: nat) -> bool {
    forall|i: nat, j: nat|
        i < q && j < q && #[trigger] (pow(alpha as int, i) % (p as int)) == #[trigger] (pow(
            alpha as int,
            j,
        ) % (p as int)) ==> i == j
}

/// A response different from `solve_val(x, k, c, q)` never satisfies even
/// the first verification equation for the honest commitment
/// `alpha^k mod p`, when the generator's powers below `q` are distinct.
proof fn lemma_soundness_first_equation(p: nat, q: nat, alpha: nat, x: nat, k: nat, c: nat, s2: nat)
    requires
        crate::params::group_ok(p, q, alpha),
        powers_injective(alpha, p, q),
        s2 < q,
        s2 != solve_val(x, k, c, q),
    ensures
        pow(alpha as int, k) % (p as int) != (pow(alpha as int, s2) * pow(
            (pow(alpha as int, x) % (p as int)),
            c,
        )) % (p as int),
{
    let ai = alpha as int;
    let pi = p as int;
    let qi = q as int;
    let xc = x * c;
    let s = solve_val(x, k, c, q);
    if pow(ai, k) % pi == (pow(ai, s2) * pow(pow(ai, x) % pi, c)) % pi {
        // the forged response would make the commitment equal
        // alpha^(s2 + x*c) mod p
        vstd::arithmetic::power::lemma_pow_mod_noop(pow(ai, x), c, pi);
        lemma_mul_mod_noop_general(pow(ai, s2), pow(pow(ai, x) % pi, c), pi);
        lemma_mul_mod_noop_general(pow(ai, s2), pow(pow(ai, x), c), pi);
        vstd::arithmetic::power::lemma_pow_multiplies(ai, x, c);
        vstd::arithmetic::power::lemma_pow_adds(ai, s2, xc);
        assert((pow(ai, s2) * pow(pow(ai, x) % pi, c)) % pi == pow(ai, (s2 + xc) as nat) % pi);
        // reduce both exponents below q and apply injectivity
        crate::algebra::lemma_pow_mod_cycle(alpha, p, q, (s2 + xc) as nat);
        crate::algebra::lemma_pow_mod_cycle(alpha, p, q, k);
        lemma_mod_bound((s2 + xc) as int, qi);
        lemma_mod_bound(k as int, qi);
        assert(((s2 + xc) as nat) % q == k % q);
        // solve for s2: it must be the honest response
        let e = (k as int) - (c as int) * (x as int);
        assert((c as int) * (x as int) == xc as int) by (nonlinear_arith)
            requires
                xc == x * c,
        ;
        vstd::arithmetic::div_mod::lemma_sub_mod_noop(
            (s2 + xc) as int,
            xc as int,
            qi,
        );
        vstd::arithmetic::div_mod::lemma_sub_mod_noop(
            k as int,
            xc as int,
            qi,
        );
        lemma_mod_bound(xc as int, qi);
        assert((((s2 + xc) as int) % qi - (xc as int) % qi) % qi == ((s2 + xc) as int - xc as int)
            % qi);
        assert(((k as int) % qi - (xc as int) % qi) % qi == ((k as int) - xc as int) % qi);
        assert((s2 as int) % qi == e % qi);
        vstd::arithmetic::div_mod::lemma_small_mod(s2, q);
        assert(s2 == s);
        assert(false);
    }
}

/// Soundness of the protocol against a generator with distinct powers: for
/// the honest commitment `(alpha^k, beta^k)` and derived public key
/// `(alpha^x, beta^x, alpha, beta)` with `beta = alpha^r`, all mod `p`, a
/// response in `[0, q)` other than `solve_val(x, k, c, q)` never satisfies
/// the verification predicate.
pub proof fn lemma_soundness(p: nat, q: nat, alpha: nat, r: nat, x: nat, k: nat, c: nat, s2: nat)
    requires
        crate::params::group_ok(p, q, alpha),
        powers_injective(alpha, p, q),
        s2 < q,
        s2 != solve_val(x, k, c, q),
    ensures
        ({
            let beta = (pow(alpha as int, r) % (p as int)) as nat;
            let a = (pow(alpha as int, x) % (p as int)) as nat;
            let b = (pow(beta as int, x) % (p as int)) as nat;
            let ka = (pow(alpha as int, k) % (p as int)) as nat;
            let kb = (pow(beta as int, k) % (p as int)) as nat;
            !verify_val(p, alpha, beta, a, b, ka, kb, c, s2)
        }),
{
    let pi = p as int;
    lemma_soundness_first_equation(p, q, alpha, x, k, c, s2);
    lemma_mod_bound(pow(alpha as int, k), pi);
    lemma_mod_bound(pow(alpha as int, x), pi);
}

/// The residues `4^0 .. 4^10 mod 23`, tabulated.
spec fn small_pow_residue(i: nat) -> int {
    if i == 0 {
        1
    } else if i == 1 {
        4
    } else if i == 2 {
        16
    } else if i == 3 {
        18
    } else if i == 4 {
        3
    } else if i == 5 {
        12
    } else if i == 6 {
        2
    } else if i == 7 {
        8
    } else if i == 8 {
        9
    } else if i == 9 {
        13
    } else {
        6
    }
}

proof fn lemma_small_pow_table(i: nat)
    requires
        i < 11,
    ensures
        pow(4, i) % 23 == small_pow_residue(i),
{
    reveal_with_fuel(pow, 12);
    if i == 0 {
        assert(pow(4, 0) % 23 == 1);
    } else if i == 1 {
        assert(pow(4, 1) % 23 == 4);
    } else if i == 2 {
        assert(pow(4, 2) % 23 == 16);
    } else if i == 3 {
        assert(pow(4, 3) % 23 == 18);
    } else if i == 4 {
        assert(pow(4, 4) % 23 == 3);
    } else if i == 5 {
        assert(pow(4, 5) % 23 == 12);
    } else if i == 6 {
        assert(pow(4, 6) % 23 == 2);
    } else if i == 7 {
        assert(pow(4, 7) % 23 == 8);
    } else if i == 8 {
        assert(pow(4, 8) % 23 == 9);
    } else if i == 9 {
        assert(pow(4, 9) % 23 == 13);
    } else {
        assert(i == 10);
        assert(pow(4, 10) % 23 == 6);
    }
}

/// In the tiny profile the generator's powers below Q are pairwise
/// distinct, so the soundness hypothesis holds of it outright.
pub proof fn lemma_small_group_powers_injective()
    ensures
        powers_injective(4, 23, 11),
{
    assert forall|i: nat, j: nat|
        i < 11 && j < 11 && #[trigger] (pow(4 as int, i) % (23 as int)) == #[trigger] (pow(
            4 as int,
            j,
        ) % (23 as int)) implies i == j by {
        lemma_small_pow_table(i);
        lemma_small_pow_table(j);
    }
}

} // verus!
