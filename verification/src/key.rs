//! The immutable verifying key: the trusted-setup output the pairing check
//! runs against.
//!
//! Every point is validated once, when the key is assembled; a key that fails
//! validation is never handed to the verifier. All blocks hold big-endian
//! coordinates in the layout the pairing backend consumes directly.

use vstd::prelude::*;
use crate::errors::DecodeError;
use crate::field::{be_nat, fq_in_range, fq_modulus};
use crate::g1::{g1_decode, g1_decode_error};
use crate::wire::{change_endianness, lemma_rev_chunks_involution, lemma_rev_chunks_len,
    rev_chunks};
use crate::g1::g1_negate_le_is_some;
use vstd::slice::slice_subrange;
use ark_serialize::{CanonicalDeserialize, Compress, Validate};

verus! {

/// Whether 128 bytes are accepted by the arithmetic backend as a G2 point of
/// the correct prime-order subgroup. The backend's acceptance test takes pages
/// to state, so it is only named here; it depends on the bytes alone.
pub uninterp spec fn g2_key_ok(b: Seq<u8>) -> bool;

/// The four 32-byte coordinate blocks of a 128-byte G2 encoding all lie below
/// the base-field modulus.
pub open spec fn g2_coords_in_range(b: Seq<u8>) -> bool {
    &&& be_nat(b.subrange(0, 32)) < fq_modulus()
    &&& be_nat(b.subrange(32, 64)) < fq_modulus()
    &&& be_nat(b.subrange(64, 96)) < fq_modulus()
    &&& be_nat(b.subrange(96, 128)) < fq_modulus()
}

/// A G2 key point is kept only when its coordinates are canonical and the
/// backend accepts it into the right subgroup.
pub open spec fn g2_key_wf(b: Seq<u8>) -> bool {
    g2_coords_in_range(b) && g2_key_ok(b)
}

/// A G1 key point is kept only when it decodes to a valid point.
pub open spec fn g1_key_wf(b: Seq<u8>) -> bool {
    g1_decode(b) is Some
}

/// The verifying key: alpha in G1, beta, gamma and delta in G2, and the
/// input-commitment vector of G1 points; `ic` holds one point more than the
/// circuit has public inputs.
pub struct VerifyingKey {
    pub alpha_g1: [u8; 64],
    pub beta_g2: [u8; 128],
    pub gamma_g2: [u8; 128],
    pub delta_g2: [u8; 128],
    pub ic: Vec<[u8; 64]>,
}

impl VerifyingKey {
    /// Every stored point passed validation and at least the zeroth
    /// input-commitment point is present.
    pub open spec fn wf(self) -> bool {
        &&& g1_key_wf(self.alpha_g1@)
        &&& g2_key_wf(self.beta_g2@)
        &&& g2_key_wf(self.gamma_g2@)
        &&& g2_key_wf(self.delta_g2@)
        &&& self.ic@.len() >= 1
        &&& forall|i: int| 0 <= i < self.ic@.len() ==> g1_key_wf(#[trigger] self.ic@[i]@)
    }

    /// How many public inputs the key commits to.
    pub open spec fn spec_num_inputs(self) -> nat {
        (self.ic@.len() - 1) as nat
    }

    /// Assembles and validates a verifying key; any invalid point is a fatal
    /// configuration error that prevents the key from existing.
    pub fn try_new(
        alpha_g1: [u8; 64],
        beta_g2: [u8; 128],
        gamma_g2: [u8; 128],
        delta_g2: [u8; 128],
        ic: Vec<[u8; 64]>,
    ) -> (r: Result<VerifyingKey, DecodeError>)
        ensures
            match r {
                Ok(k) => {
                    &&& k.wf()
                    &&& k.alpha_g1@ == alpha_g1@
                    &&& k.beta_g2@ == beta_g2@
                    &&& k.gamma_g2@ == gamma_g2@
                    &&& k.delta_g2@ == delta_g2@
                    &&& k.ic@ == ic@
                },
                Err(e) => {
                    &&& !(g1_key_wf(alpha_g1@) && g2_key_wf(beta_g2@) && g2_key_wf(gamma_g2@)
                        && g2_key_wf(delta_g2@) && ic@.len() >= 1 && (forall|i: int|
                        0 <= i < ic@.len() ==> g1_key_wf(#[trigger] ic@[i]@)))
                    &&& ({
                        ||| (g1_decode(alpha_g1@) is None && e == g1_decode_error(alpha_g1@))
                        ||| (!g2_coords_in_range(beta_g2@) && e == DecodeError::InvalidFieldElement)
                        ||| (!g2_key_ok(beta_g2@) && e == DecodeError::InvalidSubgroup)
                        ||| (!g2_coords_in_range(gamma_g2@) && e
                            == DecodeError::InvalidFieldElement)
                        ||| (!g2_key_ok(gamma_g2@) && e == DecodeError::InvalidSubgroup)
                        ||| (!g2_coords_in_range(delta_g2@) && e
                            == DecodeError::InvalidFieldElement)
                        ||| (!g2_key_ok(delta_g2@) && e == DecodeError::InvalidSubgroup)
                        ||| (ic@.len() == 0 && e == DecodeError::LengthMismatch)
                        ||| (exists|i: int|
                            0 <= i < ic@.len() && g1_decode(#[trigger] ic@[i]@) is None && e
                                == g1_decode_error(ic@[i]@))
                    })
                },
            },
    {
        if !g1_block_valid(&alpha_g1) {
            return Err(classify_g1_key_error(&alpha_g1));
        }
        match g2_block_error(&beta_g2) {
            Some(e) => {
                return Err(e);
            },
            None => {},
        }
        match g2_block_error(&gamma_g2) {
            Some(e) => {
                return Err(e);
            },
            None => {},
        }
        match g2_block_error(&delta_g2) {
            Some(e) => {
                return Err(e);
            },
            None => {},
        }
        if ic.len() == 0 {
            return Err(DecodeError::LengthMismatch);
        }
        let mut i: usize = 0;
        while i < ic.len()
            invariant
                i <= ic@.len(),
                forall|j: int| 0 <= j < i ==> g1_key_wf(#[trigger] ic@[j]@),
            decreases ic@.len() - i,
        {
            if !g1_block_valid(&ic[i]) {
                return Err(classify_g1_key_error(&ic[i]));
            }
            i = i + 1;
        }
        Ok(VerifyingKey { alpha_g1, beta_g2, gamma_g2, delta_g2, ic })
    }
}

/// Whether a 64-byte big-endian block decodes to a valid G1 point, checked
/// through the arithmetic backend.
fn g1_block_valid(b: &[u8; 64]) -> (r: bool)
    ensures
        r == (g1_decode(b@) is Some),
{
    let mut le = change_endianness(b.as_slice());
    proof {
        lemma_rev_chunks_len(b@);
    }
    le.push(0u8);
    proof {
        assert(le@.take(64) =~= rev_chunks(b@));
        lemma_rev_chunks_involution(b@);
    }
    g1_negate_le_is_some(&le)
}

/// Picks the error a rejected G1 key block is reported with.
fn classify_g1_key_error(b: &[u8; 64]) -> (e: DecodeError)
    requires
        g1_decode(b@) is None,
    ensures
        e == g1_decode_error(b@),
{
    crate::g1::classify_g1_error(b.as_slice())
}

/// Validates one G2 key block: canonical coordinate ranges first, then the
/// backend's curve-and-subgroup acceptance.
fn g2_block_error(b: &[u8; 128]) -> (r: Option<DecodeError>)
    ensures
        match r {
            None => g2_key_wf(b@),
            Some(e) => {
                &&& !g2_key_wf(b@)
                &&& (!g2_coords_in_range(b@) && e == DecodeError::InvalidFieldElement) || (
                g2_coords_in_range(b@) && !g2_key_ok(b@) && e == DecodeError::InvalidSubgroup)
            },
        },
{
    let s = b.as_slice();
    let c0 = fq_in_range(slice_subrange(s, 0, 32));
    let c1 = fq_in_range(slice_subrange(s, 32, 64));
    let c2 = fq_in_range(slice_subrange(s, 64, 96));
    let c3 = fq_in_range(slice_subrange(s, 96, 128));
    if !(c0 && c1 && c2 && c3) {
        return Some(DecodeError::InvalidFieldElement);
    }
    if !g2_key_check(b) {
        return Some(DecodeError::InvalidSubgroup);
    }
    None
}

/// Asks the arithmetic backend whether 128 big-endian bytes encode a valid G2
/// point of the right subgroup.
///
/// Relies on `ark_bn254::G2Affine::deserialize_with_mode` (uncompressed,
/// validated: curve membership and the prime-order subgroup check), fed the
/// bytes of each 64-byte extension-field element reversed into the backend's
/// little-endian layout. Acceptance is a deterministic function of the bytes
/// alone, named `g2_key_ok`.
#[verifier::external_body]
fn g2_key_check(b: &[u8; 128]) -> (r: bool)
    ensures
        r == g2_key_ok(b@),
{
    let mut le: Vec<u8> = Vec::with_capacity(129);
    for chunk in b.chunks(64) {
        le.extend(chunk.iter().rev());
    }
    le.push(0u8);
    ark_bn254::G2Affine::deserialize_with_mode(le.as_slice(), Compress::No, Validate::Yes).is_ok()
}

} // verus!
