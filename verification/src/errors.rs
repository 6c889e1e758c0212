//! The error kinds a verified call can end in.

use vstd::prelude::*;

verus! {

/// Why a verification step was rejected.
///
/// Any cryptographic-verification failure aborts the enclosing call and
/// leaves the trusted state unchanged.  Only `DecodeError` and
/// `TransportError` are safe to retry: the others signal dishonesty,
/// corruption or tampering that a retry cannot fix.
#[derive(Clone, Copy, Debug, PartialEq, Eq, Structural)]
pub enum VerifyError {
    /// The bootstrap commitment does not match the configured waypoint anchor.
    WaypointMismatch,
    /// The epoch-change chain skips or repeats an epoch.
    EpochGap,
    /// The signatures on a commitment carry insufficient voting power.
    QuorumNotMet,
    /// A signature claims a validator outside the epoch's validator set.
    UnknownSigner,
    /// A non-terminal element of an epoch-change chain carries no successor
    /// validator set.
    MissingNextEpochState,
    /// An accumulator proof does not recompute to the expected root.
    ProofVerificationFailed,
    /// A transaction body does not match its proven commitment.
    TransactionHashMismatch,
    /// Malformed data from the server.
    DecodeError,
    /// A network-level failure, reported by the transport around the library.
    TransportError,
}

impl VerifyError {
    /// Whether a blind retry of the same call can ever succeed.
    pub fn is_retryable(&self) -> (r: bool)
        ensures
            r == (*self == VerifyError::DecodeError || *self == VerifyError::TransportError),
    {
        match self {
            VerifyError::DecodeError => true,
            VerifyError::TransportError => true,
            _ => false,
        }
    }
}

} // verus!
