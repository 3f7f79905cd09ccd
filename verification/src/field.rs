//! Big-endian byte blocks as field-element candidates.
//!
//! A 32-byte block encodes an unsigned integer in big-endian order. A block is
//! a valid field element only when that integer lies strictly below the
//! relevant modulus; larger values are a decode error, never silently reduced.

use vstd::prelude::*;

verus! {

/// 256 to the power `n`.
pub open spec fn pow256(n: nat) -> nat
    decreases n,
{
    if n == 0 {
        1
    } else {
        256 * pow256((n - 1) as nat)
    }
}

/// The unsigned integer a byte string encodes in big-endian order.
pub open spec fn be_nat(s: Seq<u8>) -> nat
    decreases s.len(),
{
    if s.len() == 0 {
        0
    } else {
        be_nat(s.drop_last()) * 256 + s.last() as nat
    }
}

/// The `n`-byte big-endian encoding of `v % 256^n`.
pub open spec fn be_bytes(v: nat, n: nat) -> Seq<u8>
    decreases n,
{
    if n == 0 {
        Seq::empty()
    } else {
        be_bytes(v / 256, (n - 1) as nat).push((v % 256) as u8)
    }
}

/// The big-endian bytes of the BN254 base-field modulus
/// p = 21888242871839275222246405745257275088696311157297823662689037894645226208583.
pub open spec fn fq_modulus_be() -> Seq<u8> {
    seq![
        0x30u8, 0x64, 0x4e, 0x72, 0xe1, 0x31, 0xa0, 0x29, 0xb8, 0x50, 0x45, 0xb6, 0x81, 0x81,
        0x58, 0x5d, 0x97, 0x81, 0x6a, 0x91, 0x68, 0x71, 0xca, 0x8d, 0x3c, 0x20, 0x8c, 0x16,
        0xd8, 0x7c, 0xfd, 0x47,
    ]
}

/// The BN254 base-field modulus as an integer.
pub open spec fn fq_modulus() -> nat {
    be_nat(fq_modulus_be())
}

/// The big-endian bytes of the BN254 scalar-field modulus
/// r = 21888242871839275222246405745257275088548364400416034343698204186575808495617.
pub open spec fn fr_modulus_be() -> Seq<u8> {
    seq![
        0x30u8, 0x64, 0x4e, 0x72, 0xe1, 0x31, 0xa0, 0x29, 0xb8, 0x50, 0x45, 0xb6, 0x81, 0x81,
        0x58, 0x5d, 0x28, 0x33, 0xe8, 0x48, 0x79, 0xb9, 0x70, 0x91, 0x43, 0xe1, 0xf5, 0x93,
        0xf0, 0x00, 0x00, 0x01,
    ]
}

/// The BN254 scalar-field modulus as an integer.
pub open spec fn fr_modulus() -> nat {
    be_nat(fr_modulus_be())
}

pub proof fn lemma_pow256_pos(n: nat)
    ensures
        pow256(n) >= 1,
    decreases n,
{
    if n > 0 {
        lemma_pow256_pos((n - 1) as nat);
    }
}

/// A big-endian value fits below 256 to its length.
pub proof fn lemma_be_nat_bound(s: Seq<u8>)
    ensures
        be_nat(s) < pow256(s.len()),
    decreases s.len(),
{
    if s.len() > 0 {
        lemma_be_nat_bound(s.drop_last());
        let a = be_nat(s.drop_last());
        let q = pow256((s.len() - 1) as nat);
        assert(a * 256 + s.last() < q * 256) by (nonlinear_arith)
            requires
                a < q,
                s.last() < 256,
        ;
        assert(pow256(s.len()) == 256 * q);
        assert(q * 256 == 256 * q) by (nonlinear_arith);
    }
}

/// Peeling the most significant byte off a big-endian value.
pub proof fn lemma_be_nat_first(s: Seq<u8>)
    requires
        s.len() > 0,
    ensures
        be_nat(s) == s[0] * pow256((s.len() - 1) as nat) + be_nat(s.drop_first()),
    decreases s.len(),
{
    if s.len() == 1 {
        assert(s.drop_last() =~= Seq::<u8>::empty());
        assert(s.drop_first() =~= Seq::<u8>::empty());
        assert(be_nat(Seq::<u8>::empty()) == 0);
        assert(s.last() == s[0]);
        assert(be_nat(s) == be_nat(s.drop_last()) * 256 + s.last() as nat);
        assert(pow256(0) == 1);
        assert(be_nat(s) == s[0]);
    } else {
        let d = s.drop_last();
        lemma_be_nat_first(d);
        assert(d.drop_first() =~= s.drop_first().drop_last());
        let q = pow256((s.len() - 2) as nat);
        assert(be_nat(s) == (s[0] * q + be_nat(s.drop_first().drop_last())) * 256 + s.last());
        assert(s.drop_first().last() == s.last());
        assert(be_nat(s.drop_first()) == be_nat(s.drop_first().drop_last()) * 256 + s.last());
        assert((s[0] * q + be_nat(s.drop_first().drop_last())) * 256 == s[0] * (256 * q) + be_nat(
            s.drop_first().drop_last(),
        ) * 256) by (nonlinear_arith);
        assert(pow256((s.len() - 1) as nat) == 256 * q);
    }
}

/// A big-endian value is bounded by one more than its leading byte, shifted.
pub proof fn lemma_be_nat_first_bound(s: Seq<u8>)
    requires
        s.len() > 0,
    ensures
        be_nat(s) < (s[0] + 1) * pow256((s.len() - 1) as nat),
        be_nat(s) >= s[0] * pow256((s.len() - 1) as nat),
{
    lemma_be_nat_first(s);
    lemma_be_nat_bound(s.drop_first());
    let q = pow256((s.len() - 1) as nat);
    assert(s[0] * q + be_nat(s.drop_first()) < (s[0] + 1) * q) by (nonlinear_arith)
        requires
            be_nat(s.drop_first()) < q,
    ;
}

/// If two equal-length byte strings share a prefix and then differ, the one
/// with the smaller byte encodes the smaller integer.
pub proof fn lemma_be_nat_lt(a: Seq<u8>, b: Seq<u8>, i: int)
    requires
        a.len() == b.len(),
        0 <= i < a.len(),
        a.take(i) == b.take(i),
        a[i] < b[i],
    ensures
        be_nat(a) < be_nat(b),
    decreases a.len(),
{
    if i == 0 {
        lemma_be_nat_first_bound(a);
        lemma_be_nat_first_bound(b);
        let q = pow256((a.len() - 1) as nat);
        assert((a[0] + 1) * q <= b[0] * q) by (nonlinear_arith)
            requires
                a[0] + 1 <= b[0],
                q >= 0,
        ;
    } else {
        assert(a[0] == b[0]) by {
            assert(a.take(i)[0] == a[0]);
            assert(b.take(i)[0] == b[0]);
        }
        assert(a.drop_first().take(i - 1) =~= a.take(i).drop_first());
        assert(b.drop_first().take(i - 1) =~= b.take(i).drop_first());
        lemma_be_nat_lt(a.drop_first(), b.drop_first(), i - 1);
        lemma_be_nat_first(a);
        lemma_be_nat_first(b);
    }
}

/// Encoding then decoding a bounded value is the identity.
pub proof fn lemma_be_bytes_roundtrip(v: nat, n: nat)
    requires
        v < pow256(n),
    ensures
        be_bytes(v, n).len() == n,
        be_nat(be_bytes(v, n)) == v,
    decreases n,
{
    if n == 0 {
    } else {
        assert(pow256(n) == 256 * pow256((n - 1) as nat));
        assert(v / 256 < pow256((n - 1) as nat)) by (nonlinear_arith)
            requires
                v < 256 * pow256((n - 1) as nat),
        ;
        lemma_be_bytes_roundtrip(v / 256, (n - 1) as nat);
        let s = be_bytes(v, n);
        assert(s.drop_last() =~= be_bytes(v / 256, (n - 1) as nat));
        assert(s.last() == v % 256);
        assert(be_nat(s) == (v / 256) * 256 + v % 256);
        assert((v / 256) * 256 + v % 256 == v) by (nonlinear_arith);
    }
}

/// The length of an encoding.
pub proof fn lemma_be_bytes_len(v: nat, n: nat)
    ensures
        be_bytes(v, n).len() == n,
    decreases n,
{
    if n > 0 {
        lemma_be_bytes_len(v / 256, (n - 1) as nat);
    }
}

/// The leading byte of the encoding of a bounded value.
pub proof fn lemma_be_bytes_first(v: nat, n: nat)
    requires
        n > 0,
        v < pow256(n),
    ensures
        be_bytes(v, n)[0] == v / pow256((n - 1) as nat),
    decreases n,
{
    lemma_be_bytes_len(v / 256, (n - 1) as nat);
    if n == 1 {
        assert(pow256(0) == 1);
        assert(pow256(1) == 256);
        assert(be_bytes(v, 1)[0] == v % 256);
        assert(v % 256 == v) by (nonlinear_arith)
            requires
                0 <= v < 256,
        ;
        assert(v / 1 == v);
    } else {
        assert(pow256(n) == 256 * pow256((n - 1) as nat));
        assert(v / 256 < pow256((n - 1) as nat)) by (nonlinear_arith)
            requires
                v < 256 * pow256((n - 1) as nat),
        ;
        lemma_be_bytes_first(v / 256, (n - 1) as nat);
        assert(be_bytes(v, n)[0] == be_bytes(v / 256, (n - 1) as nat)[0]);
        assert(pow256((n - 1) as nat) == 256 * pow256((n - 2) as nat));
        vstd::arithmetic::div_mod::lemma_div_denominator(
            v as int,
            256,
            pow256((n - 2) as nat) as int,
        );
        lemma_pow256_pos((n - 2) as nat);
    }
}

/// Compares two equal-length big-endian blocks as integers.
pub fn be_bytes_lt(a: &[u8], b: &[u8]) -> (r: bool)
    requires
        a@.len() == b@.len(),
    ensures
        r == (be_nat(a@) < be_nat(b@)),
{
    let n = a.len();
    let mut i: usize = 0;
    while i < n
        invariant
            a@.len() == n,
            b@.len() == n,
            i <= n,
            a@.take(i as int) == b@.take(i as int),
        decreases n - i,
    {
        if a[i] < b[i] {
            proof {
                lemma_be_nat_lt(a@, b@, i as int);
            }
            return true;
        }
        if a[i] > b[i] {
            proof {
                lemma_be_nat_lt(b@, a@, i as int);
            }
            return false;
        }
        assert(a@.take(i + 1) =~= b@.take(i + 1));
        i = i + 1;
    }
    proof {
        assert(a@.take(n as int) =~= a@);
        assert(b@.take(n as int) =~= b@);
    }
    false
}

/// The base-field modulus as a byte vector, for run-time range checks.
pub fn fq_modulus_bytes() -> (r: Vec<u8>)
    ensures
        r@ == fq_modulus_be(),
{
    let v: Vec<u8> = vec![
        0x30u8, 0x64, 0x4e, 0x72, 0xe1, 0x31, 0xa0, 0x29, 0xb8, 0x50, 0x45, 0xb6, 0x81, 0x81,
        0x58, 0x5d, 0x97, 0x81, 0x6a, 0x91, 0x68, 0x71, 0xca, 0x8d, 0x3c, 0x20, 0x8c, 0x16,
        0xd8, 0x7c, 0xfd, 0x47,
    ];
    proof {
        assert(v@ =~= fq_modulus_be());
    }
    v
}

/// The scalar-field modulus as a byte vector, for run-time range checks.
pub fn fr_modulus_bytes() -> (r: Vec<u8>)
    ensures
        r@ == fr_modulus_be(),
{
    let v: Vec<u8> = vec![
        0x30u8, 0x64, 0x4e, 0x72, 0xe1, 0x31, 0xa0, 0x29, 0xb8, 0x50, 0x45, 0xb6, 0x81, 0x81,
        0x58, 0x5d, 0x28, 0x33, 0xe8, 0x48, 0x79, 0xb9, 0x70, 0x91, 0x43, 0xe1, 0xf5, 0x93,
        0xf0, 0x00, 0x00, 0x01,
    ];
    proof {
        assert(v@ =~= fr_modulus_be());
    }
    v
}

/// True iff the 32-byte big-endian block `x` encodes an integer below the
/// base-field modulus p.
pub fn fq_in_range(x: &[u8]) -> (r: bool)
    requires
        x@.len() == 32,
    ensures
        r == (be_nat(x@) < fq_modulus()),
{
    let m = fq_modulus_bytes();
    be_bytes_lt(x, m.as_slice())
}

/// True iff the 32-byte big-endian block `x` encodes an integer below the
/// scalar-field modulus r.
pub fn fr_in_range(x: &[u8]) -> (r: bool)
    requires
        x@.len() == 32,
    ensures
        r == (be_nat(x@) < fr_modulus()),
{
    let m = fr_modulus_bytes();
    be_bytes_lt(x, m.as_slice())
}

} // verus!
