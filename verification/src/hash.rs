//! The 64-bit digest that identifies a registered voter.
//!
//! A public key is serialised canonically (each component preceded by its
//! length as eight big-endian bytes) and digested with the FNV-1a mixing
//! step. The digest is a pure function of the serialised bytes, so equal
//! key tuples always map to the same identity.

use vstd::prelude::*;
use crate::zkp::PublicKeyView;

verus! {

pub const FNV_OFFSET_BASIS: u64 = 0xcbf29ce484222325;

pub const FNV_PRIME: u64 = 0x100000001b3;

/// One FNV-1a step: fold a byte into the running state.
pub open spec fn fnv_step(h: u64, b: u8) -> u64 {
    (((h ^ (b as u64)) as nat * FNV_PRIME as nat) % 0x10000000000000000nat) as u64
}

/// The FNV-1a digest of a byte string.
pub open spec fn fnv1a(s: Seq<u8>) -> u64
    decreases s.len(),
{
    if s.len() == 0 {
        FNV_OFFSET_BASIS
    } else {
        fnv_step(fnv1a(s.drop_last()), s.last())
    }
}

/// A number as exactly eight big-endian bytes.
pub open spec fn len_prefix(n: nat) -> Seq<u8>
    recommends
        n < 0x10000000000000000,
{
    seq![
        ((n / 0x100000000000000) % 256) as u8,
        ((n / 0x1000000000000) % 256) as u8,
        ((n / 0x10000000000) % 256) as u8,
        ((n / 0x100000000) % 256) as u8,
        ((n / 0x1000000) % 256) as u8,
        ((n / 0x10000) % 256) as u8,
        ((n / 0x100) % 256) as u8,
        (n % 256) as u8,
    ]
}

/// The canonical serialisation of a public key: each component is preceded
/// by its length, so distinct component splits never collide.
pub open spec fn pk_ser(v: PublicKeyView) -> Seq<u8> {
    len_prefix(v.a.len()) + v.a + len_prefix(v.b.len()) + v.b + len_prefix(v.alpha.len()) + v.alpha
        + len_prefix(v.beta.len()) + v.beta
}

/// The digest of a public key's canonical serialisation.
#[verifier::opaque]
pub open spec fn user_hash(v: PublicKeyView) -> u64 {
    fnv1a(pk_ser(v))
}

/// The digest is deterministic: identical key tuples always yield the
/// identical 64-bit digest.
pub proof fn lemma_user_hash_deterministic(v1: PublicKeyView, v2: PublicKeyView)
    requires
        v1.a == v2.a,
        v1.b == v2.b,
        v1.alpha == v2.alpha,
        v1.beta == v2.beta,
    ensures
        user_hash(v1) == user_hash(v2),
{
    reveal(user_hash);
    assert(pk_ser(v1) == pk_ser(v2));
}

/// Appends the eight-byte big-endian length of `src`, then `src` itself.
fn push_component(dst: &mut Vec<u8>, src: &Vec<u8>)
    ensures
        final(dst)@ == old(dst)@ + len_prefix(src@.len()) + src@,
{
    let n = src.len() as u64;
    dst.push(((n / 0x100000000000000u64) % 256) as u8);
    dst.push(((n / 0x1000000000000u64) % 256) as u8);
    dst.push(((n / 0x10000000000u64) % 256) as u8);
    dst.push(((n / 0x100000000u64) % 256) as u8);
    dst.push(((n / 0x1000000u64) % 256) as u8);
    dst.push(((n / 0x10000u64) % 256) as u8);
    dst.push(((n / 0x100u64) % 256) as u8);
    dst.push((n % 256u64) as u8);
    proof {
        assert(dst@ =~= old(dst)@ + len_prefix(src@.len()));
    }
    let m = src.len();
    let mut i: usize = 0;
    while i < m
        invariant
            0 <= i <= m,
            m == src@.len(),
            dst@ =~= old(dst)@ + len_prefix(src@.len()) + src@.subrange(0, i as int),
        decreases m - i,
    {
        dst.push(src[i]);
        i += 1;
    }
    proof {
        assert(dst@ =~= old(dst)@ + len_prefix(src@.len()) + src@);
    }
}

/// Serialises the four components of a public key canonically.
pub fn serialize_components(a: &Vec<u8>, b: &Vec<u8>, alpha: &Vec<u8>, beta: &Vec<u8>) -> (r: Vec<
    u8,
>)
    ensures
        r@ == pk_ser(PublicKeyView { a: a@, b: b@, alpha: alpha@, beta: beta@ }),
{
    let mut r: Vec<u8> = Vec::new();
    push_component(&mut r, a);
    push_component(&mut r, b);
    push_component(&mut r, alpha);
    push_component(&mut r, beta);
    proof {
        assert(r@ =~= pk_ser(PublicKeyView { a: a@, b: b@, alpha: alpha@, beta: beta@ }));
    }
    r
}

/// Digests a byte string with FNV-1a.
pub fn fnv1a_bytes(v: &Vec<u8>) -> (r: u64)
    ensures
        r == fnv1a(v@),
{
    let n = v.len();
    let mut h: u64 = FNV_OFFSET_BASIS;
    let mut i: usize = 0;
    while i < n
        invariant
            0 <= i <= n,
            n == v@.len(),
            h == fnv1a(v@.subrange(0, i as int)),
        decreases n - i,
    {
        proof {
            assert(v@.subrange(0, (i + 1) as int).drop_last() =~= v@.subrange(0, i as int));
            assert(v@.subrange(0, (i + 1) as int).last() == v@[i as int]);
        }
        h = (h ^ (v[i] as u64)).wrapping_mul(FNV_PRIME);
        i += 1;
    }
    proof {
        assert(v@.subrange(0, n as int) =~= v@);
    }
    h
}

} // verus!
