//! Decoding, validation and negation of G1 points.
//!
//! The proof's A point arrives as 64 wire bytes: two 32-byte big-endian
//! coordinates, with two metadata bits in the top of byte 32 (bit 7: the
//! y-coordinate was flagged negative, ignored here; bit 6: the point at
//! infinity; both together are rejected). Negation maps (x, y) to
//! (x, p - y mod p) so that the two-sided pairing equality can be folded into
//! a single product-equals-identity check.

use vstd::prelude::*;
use vstd::arithmetic::div_mod::lemma_mod_multiples_vanish;
use crate::errors::DecodeError;
use crate::field::{
    be_bytes, be_nat, fq_in_range, fq_modulus, fq_modulus_be, lemma_be_bytes_first,
    lemma_be_bytes_len, lemma_be_bytes_roundtrip, lemma_be_nat_first_bound, lemma_pow256_pos,
    pow256,
};
use crate::wire::{change_endianness, lemma_rev_chunks_involution, lemma_rev_chunks_len,
    rev_chunks};
use vstd::slice::slice_subrange;
use ark_serialize::{CanonicalDeserialize, CanonicalSerialize, Compress, Validate};
use std::ops::Neg;

verus! {

/// A decoded G1 point: either the point at infinity, or affine coordinates
/// taken as integers below the base-field modulus.
pub struct G1Model {
    pub infinity: bool,
    pub x: nat,
    pub y: nat,
}

/// The point at infinity, carried with zero coordinates as the arithmetic
/// backend represents it.
pub open spec fn g1_identity() -> G1Model {
    G1Model { infinity: true, x: 0, y: 0 }
}

/// The BN254 G1 curve equation y^2 = x^3 + 3 over the base field.
pub open spec fn on_curve(x: nat, y: nat) -> bool {
    (y * y) % fq_modulus() == (x * x * x + 3) % fq_modulus()
}

impl G1Model {
    /// A well-formed point: on the curve with reduced coordinates, or the
    /// point at infinity in its canonical form.
    pub open spec fn wf(self) -> bool {
        if self.infinity {
            self.x == 0 && self.y == 0
        } else {
            self.x < fq_modulus() && self.y < fq_modulus() && on_curve(self.x, self.y)
        }
    }
}

/// The y-coordinate bytes of a 64-byte wire block, with the two metadata bits
/// masked off.
pub open spec fn g1_masked_y(w: Seq<u8>) -> Seq<u8> {
    seq![(w[32] & 0x3f)] + w.subrange(33, 64)
}

/// Bit 6 of byte 32: the point at infinity.
pub open spec fn g1_flag_infinity(w: Seq<u8>) -> bool {
    (w[32] >> 6) & 1 == 1
}

/// Bit 7 of byte 32: the y-coordinate was flagged negative.
pub open spec fn g1_flag_negative(w: Seq<u8>) -> bool {
    (w[32] >> 7) & 1 == 1
}

/// Decodes 64 wire bytes into a G1 point, failing on out-of-range
/// coordinates, contradictory metadata bits, or a point off the curve.
pub open spec fn g1_decode(w: Seq<u8>) -> Option<G1Model>
    recommends
        w.len() == 64,
{
    let x = be_nat(w.take(32));
    let y = be_nat(g1_masked_y(w));
    if g1_flag_negative(w) && g1_flag_infinity(w) {
        None
    } else if x >= fq_modulus() || y >= fq_modulus() {
        None
    } else if g1_flag_infinity(w) {
        Some(g1_identity())
    } else if on_curve(x, y) {
        Some(G1Model { infinity: false, x, y })
    } else {
        None
    }
}

/// Which decode error a rejected 64-byte block is charged with.
pub open spec fn g1_decode_error(w: Seq<u8>) -> DecodeError
    recommends
        w.len() == 64,
        g1_decode(w) is None,
{
    if g1_flag_negative(w) && g1_flag_infinity(w) {
        DecodeError::InvalidFieldElement
    } else if be_nat(w.take(32)) >= fq_modulus() || be_nat(g1_masked_y(w)) >= fq_modulus() {
        DecodeError::InvalidFieldElement
    } else {
        DecodeError::PointNotOnCurve
    }
}

/// The additive inverse: (x, y) maps to (x, p - y mod p); the point at
/// infinity maps to itself.
pub open spec fn g1_neg_model(m: G1Model) -> G1Model {
    if m.infinity {
        m
    } else {
        G1Model {
            infinity: false,
            x: m.x,
            y: if m.y == 0 {
                0nat
            } else {
                (fq_modulus() - m.y) as nat
            },
        }
    }
}

/// Re-encodes a point as 64 wire bytes, each coordinate big-endian; the point
/// at infinity leaves as all zeroes, as the arithmetic backend serializes it.
pub open spec fn g1_encode(m: G1Model) -> Seq<u8> {
    be_bytes(m.x, 32) + be_bytes(m.y, 32)
}

/// The whole normalization step on wire bytes: decode, negate, re-encode.
pub open spec fn spec_negate_a(w: Seq<u8>) -> Option<Seq<u8>>
    recommends
        w.len() == 64,
{
    match g1_decode(w) {
        Some(m) => Some(g1_encode(g1_neg_model(m))),
        None => None,
    }
}

/// Decoding never hands out a malformed point: whatever a 64-byte block
/// decodes to is well-formed.
pub proof fn lemma_decode_wf(w: Seq<u8>)
    requires
        w.len() == 64,
        g1_decode(w) is Some,
    ensures
        g1_decode(w).unwrap().wf(),
{
}

/// The base-field modulus starts with byte 0x30, so it sits between
/// 0x30 * 256^31 and 0x31 * 256^31.
pub proof fn lemma_fq_modulus_bounds()
    ensures
        0x30 * pow256(31) <= fq_modulus() < 0x31 * pow256(31),
        fq_modulus() > 0,
        fq_modulus() < pow256(32),
{
    let s = fq_modulus_be();
    assert(s.len() == 32 && s[0] == 0x30);
    lemma_be_nat_first_bound(s);
    lemma_pow256_pos(31);
    assert(pow256(32) == 256 * pow256(31));
    assert(0x31 * pow256(31) <= 256 * pow256(31)) by (nonlinear_arith)
        requires
            pow256(31) >= 1,
    ;
    assert(0x30 * pow256(31) >= 1) by (nonlinear_arith)
        requires
            pow256(31) >= 1,
    ;
}

/// Negating a point on the curve lands on the curve again.
pub proof fn lemma_on_curve_neg(x: nat, y: nat)
    requires
        x < fq_modulus(),
        y < fq_modulus(),
        on_curve(x, y),
    ensures
        on_curve(x, if y == 0 { 0nat } else { (fq_modulus() - y) as nat }),
{
    lemma_fq_modulus_bounds();
    let p = fq_modulus() as int;
    if y != 0 {
        let z = (fq_modulus() - y) as nat;
        assert(z * z == y * y + p * (p - 2 * y)) by (nonlinear_arith)
            requires
                z == p - y,
                0 < y < p,
        ;
        lemma_mod_multiples_vanish(p - 2 * (y as int), (y * y) as int, p);
        assert((z * z) as int % p == (y * y) as int % p);
    }
}

/// A well-formed point stays well-formed under negation, and the point at
/// infinity is left untouched.
pub proof fn lemma_neg_wf(m: G1Model)
    requires
        m.wf(),
    ensures
        g1_neg_model(m).wf(),
        g1_neg_model(m).infinity == m.infinity,
{
    if !m.infinity {
        lemma_on_curve_neg(m.x, m.y);
    }
}

/// Negation is an involution on well-formed points, and fixes the identity.
pub proof fn lemma_negate_involution(m: G1Model)
    requires
        m.wf(),
    ensures
        g1_neg_model(g1_neg_model(m)) == m,
        g1_neg_model(g1_identity()) == g1_identity(),
{
}

/// Decoding the canonical encoding of a well-formed finite point returns
/// exactly that point.
pub proof fn lemma_decode_encode(m: G1Model)
    requires
        m.wf(),
        !m.infinity,
    ensures
        g1_encode(m).len() == 64,
        g1_decode(g1_encode(m)) == Some(m),
{
    lemma_fq_modulus_bounds();
    lemma_pow256_pos(31);
    let xb = be_bytes(m.x, 32);
    let yb = be_bytes(m.y, 32);
    lemma_be_bytes_roundtrip(m.x, 32);
    lemma_be_bytes_roundtrip(m.y, 32);
    let w = g1_encode(m);
    assert(w.take(32) =~= xb);
    assert(be_nat(w.take(32)) == m.x);
    lemma_be_bytes_first(m.y, 32);
    let f = w[32];
    assert(f == yb[0]);
    assert(m.y / pow256(31) < 0x40) by (nonlinear_arith)
        requires
            m.y < 0x31 * pow256(31),
            pow256(31) >= 1,
    ;
    assert(f < 0x40);
    assert(f < 0x40 ==> ((f >> 6) & 1 == 0 && (f >> 7) & 1 == 0 && f & 0x3f == f))
        by (bit_vector);
    assert(g1_masked_y(w) =~= yb);
    assert(be_nat(g1_masked_y(w)) == m.y);
    assert(g1_decode(w) == Some(G1Model { infinity: false, x: m.x, y: m.y }));
    assert(G1Model { infinity: false, x: m.x, y: m.y } == m);
}

/// Applying the normalization twice to the canonical encoding of any
/// well-formed finite point restores that encoding.
pub proof fn lemma_negate_involution_bytes(m: G1Model)
    requires
        m.wf(),
        !m.infinity,
    ensures
        spec_negate_a(g1_encode(m)) is Some,
        spec_negate_a(spec_negate_a(g1_encode(m)).unwrap()) == Some(g1_encode(m)),
{
    lemma_decode_encode(m);
    let n1 = g1_neg_model(m);
    lemma_neg_wf(m);
    lemma_decode_encode(n1);
    lemma_negate_involution(m);
}

/// Deserializes 64 little-endian bytes (plus one padding byte) as a validated
/// BN254 G1 point, negates it, and re-serializes both coordinates.
///
/// Relies on `ark_bn254::G1Affine::deserialize_with_mode` (uncompressed,
/// validated: coordinates below p, metadata bits consistent, point on the
/// curve, where the subgroup check is trivial because G1 has cofactor one),
/// `Neg::neg` (negates the y-coordinate, fixing the identity), and
/// `CanonicalSerialize::serialize_with_mode` on each coordinate (32 bytes
/// little-endian, no metadata). The contract states the result over the
/// blockwise byte reversal of the input, which is the big-endian wire view.
#[verifier::external_body]
fn g1_negate_le(b: &Vec<u8>) -> (r: Option<Vec<u8>>)
    requires
        b@.len() == 65,
    ensures
        match r {
            Some(out) => g1_decode(rev_chunks(b@.take(64))) is Some && out@ == rev_chunks(
                g1_encode(g1_neg_model(g1_decode(rev_chunks(b@.take(64))).unwrap())),
            ),
            None => g1_decode(rev_chunks(b@.take(64))) is None,
        },
{
    let parsed = ark_bn254::G1Affine::deserialize_with_mode(b.as_slice(), Compress::No, Validate::Yes);
    let pt = match parsed {
        Ok(pt) => pt,
        Err(_) => return None,
    };
    let neg = pt.neg();
    let mut out = vec![0u8; 65];
    let wx = neg.x.serialize_with_mode(&mut out[..32], Compress::No);
    let wy = neg.y.serialize_with_mode(&mut out[32..], Compress::No);
    if wx.is_err() || wy.is_err() {
        return None;
    }
    out.truncate(64);
    Some(out)
}

/// Asks the arithmetic backend whether 64 little-endian bytes (plus padding)
/// decode to a valid G1 point; the answer is stated over the big-endian view.
pub(crate) fn g1_negate_le_is_some(b: &Vec<u8>) -> (r: bool)
    requires
        b@.len() == 65,
    ensures
        r == (g1_decode(rev_chunks(b@.take(64))) is Some),
{
    match g1_negate_le(b) {
        Some(_) => true,
        None => false,
    }
}

/// Picks the decode error a rejected A block is reported with.
pub(crate) fn classify_g1_error(a: &[u8]) -> (e: DecodeError)
    requires
        a@.len() == 64,
    ensures
        e == g1_decode_error(a@),
{
    let f = a[32];
    if (f >> 7) & 1 == 1 && (f >> 6) & 1 == 1 {
        return DecodeError::InvalidFieldElement;
    }
    let x_ok = fq_in_range(slice_subrange(a, 0, 32));
    assert(a@.subrange(0, 32) =~= a@.take(32));
    let mut yb: Vec<u8> = Vec::new();
    yb.push(f & 0x3f);
    let mut i: usize = 33;
    while i < 64
        invariant
            33 <= i <= 64,
            a@.len() == 64,
            yb@ == seq![(a@[32] & 0x3f)] + a@.subrange(33, i as int),
        decreases 64 - i,
    {
        yb.push(a[i]);
        assert(yb@ =~= seq![(a@[32] & 0x3f)] + a@.subrange(33, i + 1));
        i = i + 1;
    }
    assert(yb@ =~= g1_masked_y(a@));
    let y_ok = fq_in_range(yb.as_slice());
    if !x_ok || !y_ok {
        DecodeError::InvalidFieldElement
    } else {
        DecodeError::PointNotOnCurve
    }
}

/// Normalizes the proof's A point: decodes the 64 wire bytes, rejects any
/// malformed encoding, negates the point, and re-encodes it.
pub fn negate_proof_a(a: &[u8]) -> (r: Result<Vec<u8>, DecodeError>)
    requires
        a@.len() == 64,
    ensures
        match r {
            Ok(out) => spec_negate_a(a@) == Some(out@) && out@.len() == 64,
            Err(e) => spec_negate_a(a@) is None && e == g1_decode_error(a@),
        },
{
    let mut internal = change_endianness(a);
    proof {
        lemma_rev_chunks_len(a@);
    }
    internal.push(0u8);
    proof {
        assert(internal@.take(64) =~= rev_chunks(a@));
        lemma_rev_chunks_involution(a@);
    }
    match g1_negate_le(&internal) {
        Some(out_le) => {
            let ghost m = g1_decode(a@).unwrap();
            proof {
                let enc = g1_encode(g1_neg_model(m));
                lemma_be_bytes_len(g1_neg_model(m).x, 32);
                lemma_be_bytes_len(g1_neg_model(m).y, 32);
                lemma_rev_chunks_involution(enc);
            }
            let out = change_endianness(out_le.as_slice());
            Ok(out)
        },
        None => Err(classify_g1_error(a)),
    }
}

} // verus!
