use vstd::prelude::*;

verus! {

/// Why a byte payload or an encoded curve point was rejected while decoding.
#[derive(Clone, Copy, Debug, PartialEq, Eq, Structural)]
pub enum DecodeError {
    /// The payload holds fewer bytes than a proof alone needs.
    TooShort,
    /// The payload length does not match the circuit's public-input count.
    LengthMismatch,
    /// A 32-byte block does not encode an integer below the field modulus,
    /// or carries contradictory metadata bits.
    InvalidFieldElement,
    /// A pair of coordinates does not satisfy the curve equation.
    PointNotOnCurve,
    /// A point lies on the curve but outside the prime-order subgroup.
    InvalidSubgroup,
}

/// Why a verification request ended without a verdict on the proof itself.
#[derive(Clone, Copy, Debug, PartialEq, Eq, Structural)]
pub enum VerifyError {
    /// The payload or one of its points could not be decoded.
    Decode(DecodeError),
    /// The number of public inputs does not fit the verifying key.
    PublicInputMismatch,
    /// The curve arithmetic backend refused to evaluate the pairing product.
    PairingEvaluationFailed,
}

} // verus!
