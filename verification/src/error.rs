//! The failures that the library reports.

use vstd::prelude::*;

verus! {

/// Why an operation of the library failed.
#[derive(Clone, Copy, Debug, PartialEq, Eq, Structural)]
pub enum AgeProofError {
    /// A private input that the witness needs was absent.
    MissingAssignment,
    /// A constraint names a variable that its constraint system never allocated.
    InvalidVariable,
    /// The constraints could not be evaluated: the system holds no witness.
    EvaluationError,
    /// The witness does not satisfy the circuit; no proof exists for it.
    UnsatisfiedConstraints,
    /// Key generation failed.
    SetupError,
    /// The proof system failed while it computed a proof.
    ProvingError,
    /// A key does not have the shape of the circuit it is used with.
    KeyTopologyMismatch,
    /// The bytes handed to verification are not a proof.
    MalformedProof,
}

} // verus!
