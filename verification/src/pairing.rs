//! Payload decoding and the pairing verdict.
//!
//! A payload is the 256-byte proof (A, B, C) followed by one 32-byte block per
//! public input. Decoding enforces the length invariants, the A point is
//! negated so a single batched pairing product can be compared against the
//! identity, and the pairing backend delivers the verdict.

use vstd::prelude::*;
use crate::errors::{DecodeError, VerifyError};
use crate::field::{be_nat, fr_in_range, fr_modulus};
use crate::g1::{g1_decode, g1_decode_error, negate_proof_a, spec_negate_a};
use crate::key::VerifyingKey;
use crate::wire::{chunk_count, chunk_instruction_data, padded_chunk};
use vstd::slice::slice_subrange;
use groth16_solana::groth16::{Groth16Verifier, Groth16Verifyingkey};
use groth16_solana::errors::Groth16Error;

verus! {

/// The proof's three points, as wire-format byte blocks: A and C in G1,
/// B in G2.
pub struct Proof {
    pub a: Vec<u8>,
    pub b: Vec<u8>,
    pub c: Vec<u8>,
}

/// Bytes 0..64 of a payload: the A point.
pub open spec fn payload_a(d: Seq<u8>) -> Seq<u8> {
    d.subrange(0, 64)
}

/// Bytes 64..192 of a payload: the B point.
pub open spec fn payload_b(d: Seq<u8>) -> Seq<u8> {
    d.subrange(64, 192)
}

/// Bytes 192..256 of a payload: the C point.
pub open spec fn payload_c(d: Seq<u8>) -> Seq<u8> {
    d.subrange(192, 256)
}

/// The 32-byte public-input blocks after byte 256 of a payload.
pub open spec fn payload_inputs(d: Seq<u8>) -> Seq<Seq<u8>>
    recommends
        d.len() >= 256,
        (d.len() - 256) % 32 == 0,
{
    Seq::new(((d.len() - 256) / 32) as nat, |i: int| d.subrange(256 + 32 * i, 288 + 32 * i))
}

/// The sequence of 32-byte blocks a block vector holds.
pub open spec fn blocks_view(v: Seq<[u8; 32]>) -> Seq<Seq<u8>> {
    Seq::new(v.len(), |i: int| v[i]@)
}

/// The sequence of 64-byte blocks an input-commitment vector holds.
pub open spec fn ic_view(v: Seq<[u8; 64]>) -> Seq<Seq<u8>> {
    Seq::new(v.len(), |i: int| v[i]@)
}

/// Whether a payload length is exactly the proof plus `n` input blocks.
pub open spec fn payload_len_ok(d: Seq<u8>, n: nat) -> bool {
    d.len() >= 256 && (d.len() - 256) % 32 == 0 && (d.len() - 256) / 32 == n
}

/// Splits a raw payload into the proof points and the public-input blocks,
/// enforcing the exact length `256 + 32 * num_inputs`.
pub fn decode_payload(data: &[u8], num_inputs: usize) -> (r: Result<
    (Proof, Vec<[u8; 32]>),
    DecodeError,
>)
    ensures
        match r {
            Ok(out) => {
                &&& payload_len_ok(data@, num_inputs as nat)
                &&& out.0.a@ == payload_a(data@)
                &&& out.0.b@ == payload_b(data@)
                &&& out.0.c@ == payload_c(data@)
                &&& blocks_view(out.1@) == payload_inputs(data@)
                &&& out.1@.len() == num_inputs
            },
            Err(e) => {
                &&& !payload_len_ok(data@, num_inputs as nat)
                &&& if data@.len() < 256 {
                    e == DecodeError::TooShort
                } else {
                    e == DecodeError::LengthMismatch
                }
            },
        },
{
    if data.len() < 256 {
        return Err(DecodeError::TooShort);
    }
    let tail_len = data.len() - 256;
    if tail_len % 32 != 0 || tail_len / 32 != num_inputs {
        return Err(DecodeError::LengthMismatch);
    }
    let a = vstd::slice::slice_to_vec(slice_subrange(data, 0, 64));
    let b = vstd::slice::slice_to_vec(slice_subrange(data, 64, 192));
    let c = vstd::slice::slice_to_vec(slice_subrange(data, 192, 256));
    let tail = slice_subrange(data, 256, data.len());
    let inputs = chunk_instruction_data(tail);
    proof {
        assert(chunk_count(tail@) == num_inputs);
        assert(blocks_view(inputs@) =~= payload_inputs(data@)) by {
            assert forall|i: int| 0 <= i < inputs@.len() implies inputs@[i]@ == data@.subrange(
                256 + 32 * i,
                288 + 32 * i,
            ) by {
                assert(inputs@[i]@ == padded_chunk(tail@, i));
                assert(32 * i + 32 <= tail@.len());
                assert(padded_chunk(tail@, i) =~= tail@.subrange(32 * i, 32 * i + 32));
                assert(tail@.subrange(32 * i, 32 * i + 32) =~= data@.subrange(
                    256 + 32 * i,
                    288 + 32 * i,
                ));
            }
        }
    }
    Ok((Proof { a, b, c }, inputs))
}

/// What the pairing backend answers for one batched Groth16 check, as a
/// function of the byte inputs alone: `Some(true)` when the pairing product is
/// the identity, `Some(false)` when the product check rejects the points or
/// the proof, `None` when the input-commitment combination cannot be
/// evaluated. Stating the curve arithmetic would take pages, so the outcome is
/// only named.
pub uninterp spec fn groth16_gate(
    neg_a: Seq<u8>,
    b: Seq<u8>,
    c: Seq<u8>,
    inputs: Seq<Seq<u8>>,
    alpha: Seq<u8>,
    beta: Seq<u8>,
    gamma: Seq<u8>,
    delta: Seq<u8>,
    ic: Seq<Seq<u8>>,
) -> Option<bool>;

/// Runs the batched pairing check of `groth16_solana`.
///
/// Relies on `Groth16Verifier::new` and `Groth16Verifier::verify`: with the
/// lengths required here, `new` always succeeds; `verify` combines the
/// input-commitment points with the public inputs by multi-scalar
/// multiplication, evaluates one batched pairing product over
/// (-A, B), (alpha, beta), (commitment, gamma), (C, delta), and accepts only
/// when the product is the identity. Every public input is required to be
/// below the scalar-field modulus, so the backend's own range check never
/// fires; the outcome is a deterministic function of the remaining bytes,
/// named `groth16_gate`. A failure while preparing the input commitment
/// surfaces as an error, any other rejection as `false`.
#[verifier::external_body]
fn groth16_pairing_check<const N: usize>(
    neg_a: &Vec<u8>,
    proof_b: &Vec<u8>,
    proof_c: &Vec<u8>,
    inputs: &Vec<[u8; 32]>,
    vk: &VerifyingKey,
) -> (r: Result<bool, VerifyError>)
    requires
        neg_a@.len() == 64,
        proof_b@.len() == 128,
        proof_c@.len() == 64,
        inputs@.len() == N,
        vk.ic@.len() == N + 1,
        forall|i: int| 0 <= i < N ==> be_nat(#[trigger] inputs@[i]@) < fr_modulus(),
    ensures
        match r {
            Ok(verdict) => groth16_gate(
                neg_a@,
                proof_b@,
                proof_c@,
                blocks_view(inputs@),
                vk.alpha_g1@,
                vk.beta_g2@,
                vk.gamma_g2@,
                vk.delta_g2@,
                ic_view(vk.ic@),
            ) == Some(verdict),
            Err(e) => groth16_gate(
                neg_a@,
                proof_b@,
                proof_c@,
                blocks_view(inputs@),
                vk.alpha_g1@,
                vk.beta_g2@,
                vk.gamma_g2@,
                vk.delta_g2@,
                ic_view(vk.ic@),
            ) is None && e == VerifyError::PairingEvaluationFailed,
        },
{
    let vk2 = Groth16Verifyingkey { nr_pubinputs: N, vk_alpha_g1: vk.alpha_g1, vk_beta_g2: vk.beta_g2, vk_gamme_g2: vk.gamma_g2, vk_delta_g2: vk.delta_g2, vk_ic: vk.ic.as_slice() };
    let made = Groth16Verifier::<N>::new(neg_a.as_slice().try_into().unwrap(), proof_b.as_slice().try_into().unwrap(), proof_c.as_slice().try_into().unwrap(), inputs.as_slice().try_into().unwrap(), &vk2);
    match made {
        Ok(mut g) => match g.verify() {
            Ok(()) => Ok(true),
            Err(Groth16Error::ProofVerificationFailed) => Ok(false),
            Err(_) => Err(VerifyError::PairingEvaluationFailed),
        },
        Err(_) => Err(VerifyError::PairingEvaluationFailed),
    }
}

/// The full verdict on a payload against a key committed to `n` public
/// inputs: every length, range and curve check, then the pairing outcome.
pub open spec fn spec_verify(d: Seq<u8>, vk: VerifyingKey, n: nat) -> Result<bool, VerifyError> {
    if d.len() < 256 {
        Err(VerifyError::Decode(DecodeError::TooShort))
    } else if !((d.len() - 256) % 32 == 0 && (d.len() - 256) / 32 == n) {
        Err(VerifyError::Decode(DecodeError::LengthMismatch))
    } else if vk.ic@.len() != n + 1 {
        Err(VerifyError::PublicInputMismatch)
    } else if g1_decode(payload_a(d)) is None {
        Err(VerifyError::Decode(g1_decode_error(payload_a(d))))
    } else if exists|i: int|
        0 <= i < n && be_nat(#[trigger] payload_inputs(d)[i]) >= fr_modulus() {
        Err(VerifyError::Decode(DecodeError::InvalidFieldElement))
    } else {
        match groth16_gate(
            spec_negate_a(payload_a(d)).unwrap(),
            payload_b(d),
            payload_c(d),
            payload_inputs(d),
            vk.alpha_g1@,
            vk.beta_g2@,
            vk.gamma_g2@,
            vk.delta_g2@,
            ic_view(vk.ic@),
        ) {
            Some(verdict) => Ok(verdict),
            None => Err(VerifyError::PairingEvaluationFailed),
        }
    }
}

/// Verification is deterministic: two verdicts reached on the same payload
/// bytes, the same key and the same input count are the same verdict.
pub proof fn lemma_verify_deterministic(
    r1: Result<bool, VerifyError>,
    r2: Result<bool, VerifyError>,
    d: Seq<u8>,
    vk: VerifyingKey,
    n: nat,
)
    requires
        r1 == spec_verify(d, vk, n),
        r2 == spec_verify(d, vk, n),
    ensures
        r1 == r2,
{
}

/// Verifies one proof payload against a verifying key for a circuit with `N`
/// public inputs. Returns `Ok(true)` when the proof is accepted, `Ok(false)`
/// when the pairing check rejects it, and an error when the payload is
/// malformed or does not fit the key. The verdict is a function of the bytes
/// and the key alone, so identical calls return identical results.
pub fn verify_proof<const N: usize>(data: &[u8], vk: &VerifyingKey) -> (r: Result<
    bool,
    VerifyError,
>)
    ensures
        r == spec_verify(data@, *vk, N as nat),
{
    let (proof, inputs) = match decode_payload(data, N) {
        Ok(out) => out,
        Err(e) => {
            return Err(VerifyError::Decode(e));
        },
    };
    if vk.ic.len() == 0 || vk.ic.len() - 1 != N {
        return Err(VerifyError::PublicInputMismatch);
    }
    let neg_a = match negate_proof_a(proof.a.as_slice()) {
        Ok(v) => v,
        Err(e) => {
            return Err(VerifyError::Decode(e));
        },
    };
    proof {
        assert(blocks_view(inputs@) =~= payload_inputs(data@));
    }
    let mut i: usize = 0;
    while i < inputs.len()
        invariant
            inputs@.len() == N,
            i <= N,
            payload_len_ok(data@, N as nat),
            vk.ic@.len() == N + 1,
            g1_decode(payload_a(data@)) is Some,
            blocks_view(inputs@) == payload_inputs(data@),
            forall|j: int| 0 <= j < i ==> be_nat(#[trigger] inputs@[j]@) < fr_modulus(),
        decreases N - i,
    {
        if !fr_in_range(inputs[i].as_slice()) {
            proof {
                assert(payload_inputs(data@)[i as int] == inputs@[i as int]@);
                assert(be_nat(payload_inputs(data@)[i as int]) >= fr_modulus());
            }
            return Err(VerifyError::Decode(DecodeError::InvalidFieldElement));
        }
        i = i + 1;
    }
    proof {
        assert forall|j: int| 0 <= j < N implies be_nat(
            #[trigger] payload_inputs(data@)[j],
        ) < fr_modulus() by {
            assert(payload_inputs(data@)[j] == inputs@[j]@);
        }
        assert(neg_a@ == spec_negate_a(payload_a(data@)).unwrap());
    }
    let r = groth16_pairing_check::<N>(&neg_a, &proof.b, &proof.c, &inputs, vk);
    r
}

} // verus!

