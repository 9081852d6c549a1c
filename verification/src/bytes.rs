//! Big-endian byte strings as unbounded natural numbers.
//!
//! Every group element and scalar in this crate travels as a `Vec<u8>` in
//! big-endian order. `be_val` gives the number such a string denotes, and
//! `min_be` singles out the canonical, minimal-length form (no leading zero
//! byte; zero itself is the empty string).

use vstd::prelude::*;
use vstd::arithmetic::power::pow;

verus! {

/// The natural number denoted by a big-endian byte string.
pub open spec fn be_val(s: Seq<u8>) -> nat
    decreases s.len(),
{
    if s.len() == 0 {
        0
    } else {
        (be_val(s.drop_last()) * 256 + s.last()) as nat
    }
}

/// A big-endian byte string is minimal when it carries no leading zero byte;
/// the empty string is the minimal form of zero.
pub open spec fn min_be(s: Seq<u8>) -> bool {
    s.len() == 0 || s[0] != 0
}

/// The minimal form of a big-endian byte string: the suffix after every
/// leading zero byte.
pub open spec fn min_of(s: Seq<u8>) -> Seq<u8>
    decreases s.len(),
{
    if s.len() > 0 && s[0] == 0 {
        min_of(s.subrange(1, s.len() as int))
    } else {
        s
    }
}

/// `min_of` is the suffix from the first nonzero byte on.
proof fn lemma_min_of_skip(s: Seq<u8>, i: int)
    requires
        0 <= i <= s.len(),
        forall|j: int| 0 <= j < i ==> s[j] == 0,
        i < s.len() ==> s[i] != 0,
    ensures
        min_of(s) == s.subrange(i, s.len() as int),
    decreases i,
{
    if i == 0 {
        assert(s.subrange(0, s.len() as int) =~= s);
    } else {
        let t = s.subrange(1, s.len() as int);
        lemma_min_of_skip(t, i - 1);
        assert(t.subrange(i - 1, t.len() as int) =~= s.subrange(i, s.len() as int));
    }
}

/// A minimal byte string is its own minimal form.
pub proof fn lemma_min_of_identity(s: Seq<u8>)
    requires
        min_be(s),
    ensures
        min_of(s) == s,
{
}

/// Dropping one leading zero byte does not change the denoted value.
proof fn lemma_be_val_drop_leading_zero(s: Seq<u8>)
    requires
        s.len() > 0,
        s[0] == 0,
    ensures
        be_val(s) == be_val(s.subrange(1, s.len() as int)),
    decreases s.len(),
{
    if s.len() == 1 {
        assert(s.subrange(1, 1) =~= Seq::<u8>::empty());
        assert(be_val(s) == be_val(s.drop_last()) * 256 + s.last());
        assert(s.drop_last() =~= Seq::<u8>::empty());
    } else {
        let t = s.drop_last();
        lemma_be_val_drop_leading_zero(t);
        assert(t.subrange(1, t.len() as int) =~= s.subrange(1, s.len() as int).drop_last());
    }
}

/// Any number of leading zero bytes may be removed without changing the value.
pub proof fn lemma_be_val_skip_zeros(s: Seq<u8>, i: int)
    requires
        0 <= i <= s.len(),
        forall|j: int| 0 <= j < i ==> s[j] == 0,
    ensures
        be_val(s.subrange(i, s.len() as int)) == be_val(s),
    decreases i,
{
    if i > 0 {
        lemma_be_val_drop_leading_zero(s);
        let t = s.subrange(1, s.len() as int);
        lemma_be_val_skip_zeros(t, i - 1);
        assert(t.subrange(i - 1, t.len() as int) =~= s.subrange(i, s.len() as int));
    } else {
        assert(s.subrange(0, s.len() as int) =~= s);
    }
}

/// A string of `n` bytes denotes a value below `256^n`.
pub proof fn lemma_be_val_upper_bound(s: Seq<u8>)
    ensures
        be_val(s) < pow(256, s.len() as nat),
    decreases s.len(),
{
    vstd::arithmetic::power::lemma_pow_positive(256, s.len() as nat);
    if s.len() > 0 {
        let t = s.drop_last();
        lemma_be_val_upper_bound(t);
        assert(pow(256, s.len() as nat) == 256 * pow(256, t.len() as nat)) by {
            vstd::arithmetic::power::lemma_pow1(256);
            vstd::arithmetic::power::lemma_pow_adds(256, 1, t.len() as nat);
        }
        assert(be_val(t) * 256 + s.last() < 256 * pow(256, t.len() as nat)) by (nonlinear_arith)
            requires
                be_val(t) < pow(256, t.len() as nat),
                s.last() < 256,
        ;
    }
}

/// A string whose first byte is not zero denotes at least `s[0] * 256^(n-1)`.
proof fn lemma_be_val_lower_bound(s: Seq<u8>)
    requires
        s.len() > 0,
    ensures
        be_val(s) >= s[0] * pow(256, (s.len() - 1) as nat),
    decreases s.len(),
{
    if s.len() == 1 {
        vstd::arithmetic::power::lemma_pow0(256);
        assert(s.drop_last() =~= Seq::<u8>::empty());
    } else {
        let t = s.drop_last();
        lemma_be_val_lower_bound(t);
        vstd::arithmetic::power::lemma_pow_positive(256, (t.len() - 1) as nat);
        assert(pow(256, (s.len() - 1) as nat) == 256 * pow(256, (t.len() - 1) as nat)) by {
            vstd::arithmetic::power::lemma_pow1(256);
            vstd::arithmetic::power::lemma_pow_adds(256, 1, (t.len() - 1) as nat);
        }
        assert(be_val(t) * 256 + s.last() >= s[0] * (256 * pow(256, (t.len() - 1) as nat)))
            by (nonlinear_arith)
            requires
                be_val(t) >= s[0] * pow(256, (t.len() - 1) as nat),
                pow(256, (t.len() - 1) as nat) > 0,
            ;
    }
}

/// Minimal big-endian strings are unique: two minimal strings denoting the
/// same value are the same string.
pub proof fn lemma_min_be_unique(a: Seq<u8>, b: Seq<u8>)
    requires
        min_be(a),
        min_be(b),
        be_val(a) == be_val(b),
    ensures
        a == b,
    decreases a.len(),
{
    if a.len() < b.len() {
        lemma_min_be_shorter_is_smaller(a, b);
    } else if b.len() < a.len() {
        lemma_min_be_shorter_is_smaller(b, a);
    } else if a.len() == 0 {
        assert(a =~= b);
    } else {
        let ta = a.drop_last();
        let tb = b.drop_last();
        assert(be_val(a) == be_val(ta) * 256 + a.last());
        assert(be_val(b) == be_val(tb) * 256 + b.last());
        assert(be_val(ta) == be_val(tb) && a.last() == b.last()) by (nonlinear_arith)
            requires
                be_val(ta) * 256 + a.last() == be_val(tb) * 256 + b.last(),
                a.last() < 256,
                b.last() < 256,
        ;
        if a.len() == 1 {
            assert(a =~= seq![a.last()]);
            assert(b =~= seq![b.last()]);
            assert(a =~= b);
        } else {
            assert(min_be(ta) && min_be(tb));
            lemma_min_be_unique(ta, tb);
            assert(a =~= ta.push(a.last()));
            assert(b =~= tb.push(b.last()));
            assert(a =~= b);
        }
    }
}

/// A strictly shorter minimal string denotes a smaller value than a longer
/// nonempty minimal string.
proof fn lemma_min_be_shorter_is_smaller(a: Seq<u8>, b: Seq<u8>)
    requires
        min_be(b),
        a.len() < b.len(),
    ensures
        be_val(a) < be_val(b),
{
    lemma_be_val_upper_bound(a);
    lemma_be_val_lower_bound(b);
    vstd::arithmetic::power::lemma_pow_increases(256, a.len() as nat, (b.len() - 1) as nat);
    vstd::arithmetic::power::lemma_pow_positive(256, (b.len() - 1) as nat);
    assert(b[0] * pow(256, (b.len() - 1) as nat) >= 1 * pow(256, (b.len() - 1) as nat))
        by (nonlinear_arith)
        requires
            b[0] >= 1,
            pow(256, (b.len() - 1) as nat) > 0,
    ;
}

/// Copies `v` with every leading zero byte removed, yielding the minimal
/// form of the same value.
pub fn strip_leading_zeros(v: &Vec<u8>) -> (r: Vec<u8>)
    ensures
        r@ == min_of(v@),
        min_be(r@),
        be_val(r@) == be_val(v@),
        min_be(v@) ==> r@ == v@,
{
    let n = v.len();
    let mut i: usize = 0;
    while i < n && v[i] == 0
        invariant
            0 <= i <= n,
            n == v.len(),
            forall|j: int| 0 <= j < i ==> v@[j] == 0,
        decreases n - i,
    {
        i += 1;
    }
    let mut r: Vec<u8> = Vec::new();
    let mut k: usize = i;
    while k < n
        invariant
            i <= k <= n,
            n == v.len(),
            r@ =~= v@.subrange(i as int, k as int),
        decreases n - k,
    {
        r.push(v[k]);
        k += 1;
    }
    proof {
        assert(r@ =~= v@.subrange(i as int, n as int));
        lemma_be_val_skip_zeros(v@, i as int);
        lemma_min_of_skip(v@, i as int);
        if min_be(v@) {
            assert(i == 0);
            assert(r@ =~= v@);
        }
    }
    r
}

/// Copies a byte string.
pub fn copy_bytes(v: &Vec<u8>) -> (r: Vec<u8>)
    ensures
        r@ == v@,
{
    let n = v.len();
    let mut r: Vec<u8> = Vec::new();
    let mut i: usize = 0;
    while i < n
        invariant
            0 <= i <= n,
            n == v.len(),
            r@ =~= v@.subrange(0, i as int),
        decreases n - i,
    {
        r.push(v[i]);
        i += 1;
    }
    proof {
        assert(r@ =~= v@);
    }
    r
}

/// Byte-for-byte equality of two byte strings.
pub fn bytes_eq(a: &Vec<u8>, b: &Vec<u8>) -> (r: bool)
    ensures
        r == (a@ == b@),
{
    if a.len() != b.len() {
        return false;
    }
    let n = a.len();
    let mut i: usize = 0;
    while i < n
        invariant
            0 <= i <= n,
            n == a.len() == b.len(),
            forall|j: int| 0 <= j < i ==> a@[j] == b@[j],
        decreases n - i,
    {
        if a[i] != b[i] {
            return false;
        }
        i += 1;
    }
    proof {
        assert(a@ =~= b@);
    }
    true
}

/// True when the string denotes zero; on a minimal string this is simply
/// emptiness.
pub fn is_zero_min(v: &Vec<u8>) -> (r: bool)
    requires
        min_be(v@),
    ensures
        r == (be_val(v@) == 0),
{
    proof {
        if v@.len() > 0 {
            lemma_be_val_lower_bound(v@);
            vstd::arithmetic::power::lemma_pow_positive(256, (v@.len() - 1) as nat);
            assert(v@[0] * pow(256, (v@.len() - 1) as nat) >= 1 * pow(256, (v@.len() - 1) as nat))
                by (nonlinear_arith)
                requires
                    v@[0] >= 1,
                    pow(256, (v@.len() - 1) as nat) > 0,
            ;
        }
    }
    v.len() == 0
}

} // verus!
