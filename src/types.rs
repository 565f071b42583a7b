use vstd::prelude::*;

verus! {

/// Why an operation of the signing core failed.
#[derive(Debug, Clone, Copy, PartialEq, Eq)]
pub enum MpcError {
    /// A byte string of the wrong length, a scalar not reduced modulo the group order, or a
    /// point encoding that is not the canonical encoding of a curve point. `at` names the
    /// position of the offending element where the input was a sequence.
    MalformedInput { at: Option<usize> },
    /// No secure source of randomness could be read.
    EntropySourceUnavailable,
}

/// A participant's secret scalar share `x_i`, canonically encoded.
#[derive(Clone)]
pub struct KeyShare {
    pub share: Vec<u8>,
}

/// A one-time nonce `r_i` and its public commitment `R_i = r_i * G`.
#[derive(Clone)]
pub struct NonceShare {
    pub nonce: Vec<u8>,
    pub commitment: Vec<u8>,
}

/// One participant's contribution `s_i = r_i + c * x_i`, with its commitment `R_i`.
#[allow(non_snake_case)]
#[derive(Clone)]
pub struct PartialSignature {
    pub s_i: Vec<u8>,
    pub R_i: Vec<u8>,
}

/// The combined signature `(R, s)`.
#[allow(non_snake_case)]
#[derive(Clone)]
pub struct FinalSignature {
    pub R: Vec<u8>,
    pub s: Vec<u8>,
}

} // verus!
