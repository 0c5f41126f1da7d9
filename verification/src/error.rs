//! Typed failures of proof construction and of verification.

use vstd::prelude::*;

verus! {

/// The check that a rejected proof violated.
#[derive(Clone, Copy, Debug, PartialEq, Eq, Structural)]
pub enum VerificationFailure {
    /// A declared commitment does not match the opened data.
    CommitmentMismatch,
    /// A committed polynomial exceeds its degree bound.
    DegreeBound,
    /// A claimed evaluation disagrees with the opening.
    EvaluationMismatch,
    /// The proof declares fewer public values than the transcript observes.
    PublicValuesMissing,
}

/// Why proof construction or verification stopped.
#[derive(Clone, Copy, Debug, PartialEq, Eq, Structural)]
pub enum ProverError {
    /// The snapshot of the given unit of work could not be decoded.
    CheckpointCorrupt { checkpoint: usize },
    /// Two replays of the given checkpoint disagreed.
    ReplayNonDeterminism { checkpoint: usize },
    /// Shard indices are not contiguous and increasing at the given position.
    ShardingViolation { position: usize },
    /// The proof of the given shard failed the named check.
    VerificationFailed { shard: usize, reason: VerificationFailure },
    /// No result was obtained for the given unit of work.
    WorkerUnavailable { unit: usize },
}

impl ProverError {
    /// True exactly for a rejected proof: the input is invalid, the
    /// infrastructure is not at fault.
    pub open spec fn spec_is_invalid_proof(&self) -> bool {
        self is VerificationFailed
    }

    /// Tells a proof that is definitely invalid from an infrastructure fault.
    #[verifier::when_used_as_spec(spec_is_invalid_proof)]
    pub fn is_invalid_proof(&self) -> (b: bool)
        ensures
            b == self.spec_is_invalid_proof(),
    {
        match self {
            ProverError::VerificationFailed { .. } => true,
            _ => false,
        }
    }

    /// True exactly for the one failure a coordinator may retry.
    pub open spec fn spec_is_retryable(&self) -> bool {
        self is WorkerUnavailable
    }

    /// Whether the coordinator may try the unit of work again.
    #[verifier::when_used_as_spec(spec_is_retryable)]
    pub fn is_retryable(&self) -> (b: bool)
        ensures
            b == self.spec_is_retryable(),
    {
        match self {
            ProverError::WorkerUnavailable { .. } => true,
            _ => false,
        }
    }
}

} // verus!
