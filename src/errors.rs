use vstd::prelude::*;

verus! {

/// Why a verification did not accept.
#[derive(Clone, Copy, Debug, PartialEq, Eq, Structural)]
pub enum SynthesisError {
    /// The proof does not have the shape the statement calls for (vector
    /// lengths, number of rounds or layers).
    MalformedProof,
    /// A value that the check needs is absent.
    MissingAssignment,
    /// The setup parameters or the instance do not fit each other.
    ParameterMismatch,
    /// A commitment equality, a sumcheck consistency check or a multiset
    /// identity does not hold.
    CryptographicCheckFailed,
}

} // verus!
