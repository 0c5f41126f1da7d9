use shard_prover::error::{ProverError, VerificationFailure};

fn all() -> Vec<ProverError> {
    vec![
        ProverError::CheckpointCorrupt { checkpoint: 1 },
        ProverError::ReplayNonDeterminism { checkpoint: 2 },
        ProverError::ShardingViolation { position: 3 },
        ProverError::VerificationFailed { shard: 4, reason: VerificationFailure::DegreeBound },
        ProverError::WorkerUnavailable { unit: 5 },
    ]
}

#[test]
fn only_a_failed_verification_says_the_proof_is_invalid() {
    let invalid: Vec<bool> = all().iter().map(|e| e.is_invalid_proof()).collect();
    assert_eq!(invalid, vec![false, false, false, true, false]);
}

#[test]
fn only_an_unavailable_worker_may_be_retried() {
    let retryable: Vec<bool> = all().iter().map(|e| e.is_retryable()).collect();
    assert_eq!(retryable, vec![false, false, false, false, true]);
}
