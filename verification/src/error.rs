//! Error taxonomy of the pipeline: usage errors and artifact-invariant
//! violations, kept distinct from a proof that merely fails to verify.
#![allow(unused_imports)]
use vstd::prelude::*;

verus! {

/// Errors returned by the pipeline. A `verify` call that returns `Ok(false)`
/// is a cryptographic rejection, not an error, and is never reported here.
#[derive(Clone, Copy, Debug, PartialEq, Eq, Structural)]
pub enum ZkError {
    /// A required input signal is absent from the supplied bindings.
    MissingInput,
    /// The circuit description breaks its structural invariant.
    MalformedCircuit,
    /// The witness length differs from the signal count the proving key declares.
    WitnessSizeMismatch,
    /// The public-input count differs from what the verification key expects.
    PublicInputSizeMismatch,
    /// An artifact's magic header, version, or field encoding is not recognized.
    UnsupportedFormat,
    /// The supplied key material does not belong to the circuit it is used with.
    KeyCircuitMismatch,
}

} // verus!
