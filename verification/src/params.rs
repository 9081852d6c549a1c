//! The prime-order group the protocol works in.
//!
//! A `GroupParams` value carries the modulus P, the subgroup order Q and the
//! generator alpha as minimal big-endian byte strings. The constructor checks
//! at run time, through the multi-precision arithmetic, that the three values
//! really describe an order-Q subgroup (`alpha^Q mod P == 1`, `Q | P - 1`,
//! `1 < alpha < P`), so every well-formed `GroupParams` is known to satisfy
//! `group_ok` and the protocol laws apply to it.

use vstd::prelude::*;
use vstd::arithmetic::power::pow;
use crate::bytes::{be_val, min_be, strip_leading_zeros, bytes_eq, is_zero_min};
use crate::bignum::{big_mod_pow, big_sub, big_mod, big_ge};

verus! {

/// The numbers a `GroupParams` value denotes.
pub struct GroupParamsView {
    pub p: nat,
    pub q: nat,
    pub alpha: nat,
}

/// (P, Q, alpha) describe a Schnorr-style subgroup: the generator is a
/// nontrivial element below P whose order divides Q, and Q divides P - 1.
pub open spec fn group_ok(p: nat, q: nat, alpha: nat) -> bool {
    &&& p > 2
    &&& q > 1
    &&& 1 < alpha < p
    &&& pow(alpha as int, q) % (p as int) == 1
    &&& (p - 1) % (q as int) == 0
}

pub struct GroupParams {
    p: Vec<u8>,
    q: Vec<u8>,
    alpha: Vec<u8>,
}

impl View for GroupParams {
    type V = GroupParamsView;

    closed spec fn view(&self) -> GroupParamsView {
        GroupParamsView { p: be_val(self.p@), q: be_val(self.q@), alpha: be_val(self.alpha@) }
    }
}

impl GroupParams {
    /// The three byte strings are in minimal form.
    pub closed spec fn min_form(&self) -> bool {
        &&& min_be(self.p@)
        &&& min_be(self.q@)
        &&& min_be(self.alpha@)
    }

    /// The byte strings are minimal and the denoted numbers form a group.
    pub open spec fn wf(&self) -> bool {
        &&& self.min_form()
        &&& group_ok(self@.p, self@.q, self@.alpha)
    }

    /// Builds group parameters from big-endian byte strings, accepting them
    /// exactly when they satisfy `group_ok`; the subgroup conditions are
    /// established by computing `alpha^Q mod P` and `(P - 1) mod Q`.
    pub fn new(p: Vec<u8>, q: Vec<u8>, alpha: Vec<u8>) -> (r: Option<GroupParams>)
        ensures
            match r {
                Some(g) => {
                    &&& g.wf()
                    &&& g@.p == be_val(p@)
                    &&& g@.q == be_val(q@)
                    &&& g@.alpha == be_val(alpha@)
                },
                None => !group_ok(be_val(p@), be_val(q@), be_val(alpha@)),
            },
    {
        let p = strip_leading_zeros(&p);
        let q = strip_leading_zeros(&q);
        let alpha = strip_leading_zeros(&alpha);
        let two: Vec<u8> = vec![2u8];
        let one: Vec<u8> = vec![1u8];
        proof {
            lemma_small_be_vals();
            assert(two@ =~= seq![2u8]);
            assert(one@ =~= seq![1u8]);
        }
        if !big_ge(&q, &two) {
            return None;
        }
        if !big_ge(&alpha, &two) {
            return None;
        }
        if big_ge(&alpha, &p) {
            return None;
        }
        // alpha < p and alpha >= 2 give p > 2.
        let power = big_mod_pow(&alpha, &q, &p);
        let power = strip_leading_zeros(&power);
        if !bytes_eq(&power, &one) {
            proof {
                if be_val(power@) == 1 {
                    crate::bytes::lemma_min_be_unique(power@, seq![1u8]);
                }
            }
            return None;
        }
        let p_minus_one = big_sub(&p, &one);
        let rem = big_mod(&p_minus_one, &q);
        let rem = strip_leading_zeros(&rem);
        if !is_zero_min(&rem) {
            return None;
        }
        Some(GroupParams { p, q, alpha })
    }

    /// The modulus P as a minimal big-endian byte string.
    pub fn p(&self) -> (r: &Vec<u8>)
        requires
            self.wf(),
        ensures
            min_be(r@),
            be_val(r@) == self@.p,
    {
        &self.p
    }

    /// The subgroup order Q as a minimal big-endian byte string.
    pub fn q(&self) -> (r: &Vec<u8>)
        requires
            self.wf(),
        ensures
            min_be(r@),
            be_val(r@) == self@.q,
    {
        &self.q
    }

    /// The generator alpha as a minimal big-endian byte string.
    pub fn alpha(&self) -> (r: &Vec<u8>)
        requires
            self.wf(),
        ensures
            min_be(r@),
            be_val(r@) == self@.alpha,
    {
        &self.alpha
    }

    /// The published 1024-bit parameters, byte-identical to
    /// `standard_p_bytes`/`standard_q_bytes`/`standard_alpha_bytes`; `new`
    /// re-checks the subgroup conditions at run time, so the result is an
    /// `Option`.
    pub fn standard() -> (r: Option<GroupParams>)
        ensures
            match r {
                Some(g) => {
                    &&& g.wf()
                    &&& g@.p == be_val(standard_p_bytes())
                    &&& g@.q == be_val(standard_q_bytes())
                    &&& g@.alpha == be_val(standard_alpha_bytes())
                },
                None => !group_ok(
                    be_val(standard_p_bytes()),
                    be_val(standard_q_bytes()),
                    be_val(standard_alpha_bytes()),
                ),
            },
    {
        GroupParams::new(standard_p(), standard_q(), standard_alpha())
    }

    /// The tiny deterministic profile (P = 23, Q = 11, alpha = 4); its
    /// subgroup conditions are proved outright, so no run-time check is
    /// needed.
    pub fn small() -> (r: GroupParams)
        ensures
            r.wf(),
            r@.p == 23,
            r@.q == 11,
            r@.alpha == 4,
    {
        let g = GroupParams { p: vec![23u8], q: vec![11u8], alpha: vec![4u8] };
        proof {
            lemma_small_be_vals();
            assert(g.p@ =~= seq![23u8]);
            assert(g.q@ =~= seq![11u8]);
            assert(g.alpha@ =~= seq![4u8]);
            reveal_with_fuel(pow, 12);
            assert(pow(4, 11) == 4194304);
            assert(4194304int % 23 == 1);
            assert((23int - 1) % 11 == 0);
        }
        g
    }
}

/// Values of the one-byte strings the constructors use.
proof fn lemma_small_be_vals()
    ensures
        be_val(seq![1u8]) == 1,
        be_val(seq![2u8]) == 2,
        be_val(seq![4u8]) == 4,
        be_val(seq![11u8]) == 11,
        be_val(seq![23u8]) == 23,
{
    reveal_with_fuel(be_val, 2);
    assert(seq![1u8].drop_last() =~= Seq::<u8>::empty());
    assert(seq![2u8].drop_last() =~= Seq::<u8>::empty());
    assert(seq![4u8].drop_last() =~= Seq::<u8>::empty());
    assert(seq![11u8].drop_last() =~= Seq::<u8>::empty());
    assert(seq![23u8].drop_last() =~= Seq::<u8>::empty());
    assert(be_val(Seq::<u8>::empty()) == 0);
}

/// The bytes of the published 1024-bit prime modulus P.
pub open spec fn standard_p_bytes() -> Seq<u8> {
    seq![
        0xb1u8, 0x0b, 0x8f, 0x96, 0xa0, 0x80, 0xe0, 0x1d, 0xde, 0x92, 0xde, 0x5e,
        0xae, 0x5d, 0x54, 0xec, 0x52, 0xc9, 0x9f, 0xbc, 0xfb, 0x06, 0xa3, 0xc6,
        0x9a, 0x6a, 0x9d, 0xca, 0x52, 0xd2, 0x3b, 0x61, 0x60, 0x73, 0xe2, 0x86,
        0x75, 0xa2, 0x3d, 0x18, 0x98, 0x38, 0xef, 0x1e, 0x2e, 0xe6, 0x52, 0xc0,
        0x13, 0xec, 0xb4, 0xae, 0xa9, 0x06, 0x11, 0x23, 0x24, 0x97, 0x5c, 0x3c,
        0xd4, 0x9b, 0x83, 0xbf, 0xac, 0xcb, 0xdd, 0x7d, 0x90, 0xc4, 0xbd, 0x70,
        0x98, 0x48, 0x8e, 0x9c, 0x21, 0x9a, 0x73, 0x72, 0x4e, 0xff, 0xd6, 0xfa,
        0xe5, 0x64, 0x47, 0x38, 0xfa, 0xa3, 0x1a, 0x4f, 0xf5, 0x5b, 0xcc, 0xc0,
        0xa1, 0x51, 0xaf, 0x5f, 0x0d, 0xc8, 0xb4, 0xbd, 0x45, 0xbf, 0x37, 0xdf,
        0x36, 0x5c, 0x1a, 0x65, 0xe6, 0x8c, 0xfd, 0xa7, 0x6d, 0x4d, 0xa7, 0x08,
        0xdf, 0x1f, 0xb2, 0xbc, 0x2e, 0x4a, 0x43, 0x71,
    ]
}

/// The bytes of the published 160-bit subgroup order Q.
pub open spec fn standard_q_bytes() -> Seq<u8> {
    seq![
        0xf5u8, 0x18, 0xaa, 0x87, 0x81, 0xa8, 0xdf, 0x27, 0x8a, 0xba, 0x4e, 0x7d,
        0x64, 0xb7, 0xcb, 0x9d, 0x49, 0x46, 0x23, 0x53,
    ]
}

/// The bytes of the published generator alpha.
pub open spec fn standard_alpha_bytes() -> Seq<u8> {
    seq![
        0xa4u8, 0xd1, 0xcb, 0xd5, 0xc3, 0xfd, 0x34, 0x12, 0x67, 0x65, 0xa4, 0x42,
        0xef, 0xb9, 0x99, 0x05, 0xf8, 0x10, 0x4d, 0xd2, 0x58, 0xac, 0x50, 0x7f,
        0xd6, 0x40, 0x6c, 0xff, 0x14, 0x26, 0x6d, 0x31, 0x26, 0x6f, 0xea, 0x1e,
        0x5c, 0x41, 0x56, 0x4b, 0x77, 0x7e, 0x69, 0x0f, 0x55, 0x04, 0xf2, 0x13,
        0x16, 0x02, 0x17, 0xb4, 0xb0, 0x1b, 0x88, 0x6a, 0x5e, 0x91, 0x54, 0x7f,
        0x9e, 0x27, 0x49, 0xf4, 0xd7, 0xfb, 0xd7, 0xd3, 0xb9, 0xa9, 0x2e, 0xe1,
        0x90, 0x9d, 0x0d, 0x22, 0x63, 0xf8, 0x0a, 0x76, 0xa6, 0xa2, 0x4c, 0x08,
        0x7a, 0x09, 0x1f, 0x53, 0x1d, 0xbf, 0x0a, 0x01, 0x69, 0xb6, 0xa2, 0x8a,
        0xd6, 0x62, 0xa4, 0xd1, 0x8e, 0x73, 0xaf, 0xa3, 0x2d, 0x77, 0x9d, 0x59,
        0x18, 0xd0, 0x8b, 0xc8, 0x85, 0x8f, 0x4d, 0xce, 0xf9, 0x7c, 0x2a, 0x24,
        0x85, 0x5e, 0x6e, 0xeb, 0x22, 0xb3, 0xb2, 0xe5,
    ]
}

/// The 1024-bit prime modulus P, big-endian.
pub fn standard_p() -> (r: Vec<u8>)
    ensures
        r@ == standard_p_bytes(),
{
    let r: Vec<u8> = vec![
        0xb1, 0x0b, 0x8f, 0x96, 0xa0, 0x80, 0xe0, 0x1d, 0xde, 0x92, 0xde, 0x5e,
        0xae, 0x5d, 0x54, 0xec, 0x52, 0xc9, 0x9f, 0xbc, 0xfb, 0x06, 0xa3, 0xc6,
        0x9a, 0x6a, 0x9d, 0xca, 0x52, 0xd2, 0x3b, 0x61, 0x60, 0x73, 0xe2, 0x86,
        0x75, 0xa2, 0x3d, 0x18, 0x98, 0x38, 0xef, 0x1e, 0x2e, 0xe6, 0x52, 0xc0,
        0x13, 0xec, 0xb4, 0xae, 0xa9, 0x06, 0x11, 0x23, 0x24, 0x97, 0x5c, 0x3c,
        0xd4, 0x9b, 0x83, 0xbf, 0xac, 0xcb, 0xdd, 0x7d, 0x90, 0xc4, 0xbd, 0x70,
        0x98, 0x48, 0x8e, 0x9c, 0x21, 0x9a, 0x73, 0x72, 0x4e, 0xff, 0xd6, 0xfa,
        0xe5, 0x64, 0x47, 0x38, 0xfa, 0xa3, 0x1a, 0x4f, 0xf5, 0x5b, 0xcc, 0xc0,
        0xa1, 0x51, 0xaf, 0x5f, 0x0d, 0xc8, 0xb4, 0xbd, 0x45, 0xbf, 0x37, 0xdf,
        0x36, 0x5c, 0x1a, 0x65, 0xe6, 0x8c, 0xfd, 0xa7, 0x6d, 0x4d, 0xa7, 0x08,
        0xdf, 0x1f, 0xb2, 0xbc, 0x2e, 0x4a, 0x43, 0x71,
    ];
    proof {
        assert(r@ =~= standard_p_bytes());
    }
    r
}

/// The 160-bit subgroup order Q, big-endian.
pub fn standard_q() -> (r: Vec<u8>)
    ensures
        r@ == standard_q_bytes(),
{
    let r: Vec<u8> = vec![
        0xf5, 0x18, 0xaa, 0x87, 0x81, 0xa8, 0xdf, 0x27, 0x8a, 0xba, 0x4e, 0x7d,
        0x64, 0xb7, 0xcb, 0x9d, 0x49, 0x46, 0x23, 0x53,
    ];
    proof {
        assert(r@ =~= standard_q_bytes());
    }
    r
}

/// The generator alpha of the order-Q subgroup, big-endian.
pub fn standard_alpha() -> (r: Vec<u8>)
    ensures
        r@ == standard_alpha_bytes(),
{
    let r: Vec<u8> = vec![
        0xa4, 0xd1, 0xcb, 0xd5, 0xc3, 0xfd, 0x34, 0x12, 0x67, 0x65, 0xa4, 0x42,
        0xef, 0xb9, 0x99, 0x05, 0xf8, 0x10, 0x4d, 0xd2, 0x58, 0xac, 0x50, 0x7f,
        0xd6, 0x40, 0x6c, 0xff, 0x14, 0x26, 0x6d, 0x31, 0x26, 0x6f, 0xea, 0x1e,
        0x5c, 0x41, 0x56, 0x4b, 0x77, 0x7e, 0x69, 0x0f, 0x55, 0x04, 0xf2, 0x13,
        0x16, 0x02, 0x17, 0xb4, 0xb0, 0x1b, 0x88, 0x6a, 0x5e, 0x91, 0x54, 0x7f,
        0x9e, 0x27, 0x49, 0xf4, 0xd7, 0xfb, 0xd7, 0xd3, 0xb9, 0xa9, 0x2e, 0xe1,
        0x90, 0x9d, 0x0d, 0x22, 0x63, 0xf8, 0x0a, 0x76, 0xa6, 0xa2, 0x4c, 0x08,
        0x7a, 0x09, 0x1f, 0x53, 0x1d, 0xbf, 0x0a, 0x01, 0x69, 0xb6, 0xa2, 0x8a,
        0xd6, 0x62, 0xa4, 0xd1, 0x8e, 0x73, 0xaf, 0xa3, 0x2d, 0x77, 0x9d, 0x59,
        0x18, 0xd0, 0x8b, 0xc8, 0x85, 0x8f, 0x4d, 0xce, 0xf9, 0x7c, 0x2a, 0x24,
        0x85, 0x5e, 0x6e, 0xeb, 0x22, 0xb3, 0xb2, 0xe5,
    ];
    proof {
        assert(r@ =~= standard_alpha_bytes());
    }
    r
}

} // verus!
