use shard_prover::error::{ProverError, VerificationFailure};
use shard_prover::machine::{
    check_shard_order, run_test_io, run_test_machine, MachineProof, SP1PublicValues, ShardClaim,
    Verification,
};
use shard_prover::shard_proof::{ShardProofData, ShardProofResult};
use shard_prover::transcript::{Commitment, Transcript, VerifyingKey};

fn proofs(list: Vec<Vec<u8>>) -> Vec<ShardProofData> {
    list.into_iter().map(|proof| ShardProofData { proof }).collect()
}

fn part(list: Vec<Vec<u8>>) -> ShardProofResult {
    ShardProofResult { shard_proofs: proofs(list) }
}

fn key() -> VerifyingKey {
    VerifyingKey { commitment: Commitment { digest: [9; 8] }, pc_start: 5 }
}

fn claim(index: usize, seed: u32, public_values: Vec<u32>) -> ShardClaim {
    ShardClaim { index, commitment: Commitment { digest: [seed; 8] }, public_values }
}

fn claims() -> Vec<ShardClaim> {
    vec![claim(0, 10, vec![1, 2, 3]), claim(1, 20, vec![1, 2, 4]), claim(2, 30, vec![1, 2, 5])]
}

#[test]
fn assemble_joins_parts_in_order() {
    let proof = MachineProof::assemble(vec![
        part(vec![vec![1], vec![2, 2]]),
        part(vec![]),
        part(vec![vec![3, 3, 3]]),
    ]);
    assert_eq!(
        proof,
        MachineProof { shard_proofs: proofs(vec![vec![1], vec![2, 2], vec![3, 3, 3]]) }
    );
    assert_eq!(MachineProof::assemble(vec![]), MachineProof { shard_proofs: vec![] });
}

#[test]
fn assemble_partial_decodes_and_joins() {
    let serialized =
        vec![part(vec![vec![1], vec![2]]).serialize(), part(vec![vec![3]]).serialize()];
    assert_eq!(
        MachineProof::assemble_partial(&serialized),
        Ok(MachineProof { shard_proofs: proofs(vec![vec![1], vec![2], vec![3]]) })
    );
    assert_eq!(MachineProof::assemble_partial(&vec![]), Ok(MachineProof { shard_proofs: vec![] }));
}

#[test]
fn assemble_partial_names_the_first_corrupt_part() {
    let good = part(vec![vec![1]]).serialize();
    let serialized = vec![good.clone(), vec![1, 2, 3], good.clone(), vec![]];
    assert_eq!(
        MachineProof::assemble_partial(&serialized),
        Err(ProverError::CheckpointCorrupt { checkpoint: 1 })
    );
    assert_eq!(
        MachineProof::assemble_partial(&vec![vec![]]),
        Err(ProverError::CheckpointCorrupt { checkpoint: 0 })
    );
}

#[test]
fn shard_order_accepts_zero_one_two() {
    assert_eq!(check_shard_order(&claims()), Ok(()));
    assert_eq!(check_shard_order(&vec![]), Ok(()));
}

#[test]
fn shard_order_names_the_first_place_out_of_order() {
    let gap = vec![claim(0, 1, vec![]), claim(2, 1, vec![]), claim(3, 1, vec![])];
    assert_eq!(check_shard_order(&gap), Err(ProverError::ShardingViolation { position: 1 }));
    let from_one = vec![claim(1, 1, vec![]), claim(2, 1, vec![])];
    assert_eq!(check_shard_order(&from_one), Err(ProverError::ShardingViolation { position: 0 }));
    let swapped = vec![claim(0, 1, vec![]), claim(2, 1, vec![]), claim(1, 1, vec![])];
    assert_eq!(check_shard_order(&swapped), Err(ProverError::ShardingViolation { position: 1 }));
    let twice = vec![claim(0, 1, vec![]), claim(0, 1, vec![])];
    assert_eq!(check_shard_order(&twice), Err(ProverError::ShardingViolation { position: 1 }));
}

#[test]
fn verifier_rebuilds_the_transcript_in_shard_order() {
    let verification = Verification::begin(&key(), &claims(), 2).unwrap();
    let mut expected = Transcript::new();
    expected.observe_slice(&[9, 9, 9, 9, 9, 9, 9, 9, 5]);
    expected.observe_slice(&[10; 8]);
    expected.observe_slice(&[1, 2]);
    expected.observe_slice(&[20; 8]);
    expected.observe_slice(&[1, 2]);
    expected.observe_slice(&[30; 8]);
    expected.observe_slice(&[1, 2]);
    assert_eq!(verification.challenger(), expected);
}

#[test]
fn verification_of_shards_out_of_order_is_a_sharding_violation() {
    let mut wrong = claims();
    wrong[1].index = 5;
    assert_eq!(
        Verification::begin(&key(), &wrong, 2),
        Err(ProverError::ShardingViolation { position: 1 })
    );
}

#[test]
fn verification_fails_on_missing_public_values() {
    let mut short = claims();
    short[2].public_values = vec![1];
    assert_eq!(
        Verification::begin(&key(), &short, 2),
        Err(ProverError::VerificationFailed {
            shard: 2,
            reason: VerificationFailure::PublicValuesMissing
        })
    );
    assert!(Verification::begin(&key(), &short, 1).is_ok());
}

#[test]
fn tampered_commitment_changes_the_transcript() {
    let honest = Verification::begin(&key(), &claims(), 3).unwrap().challenger();
    for shard in 0..3 {
        for word in 0..8 {
            for bit in [0u32, 7, 31] {
                let mut tampered = claims();
                tampered[shard].commitment.digest[word] ^= 1 << bit;
                let rebuilt = Verification::begin(&key(), &tampered, 3).unwrap().challenger();
                assert_ne!(rebuilt, honest);
            }
        }
    }
}

#[test]
fn tampered_public_value_changes_the_transcript() {
    let honest = Verification::begin(&key(), &claims(), 3).unwrap().challenger();
    for shard in 0..3 {
        for value in 0..3 {
            let mut tampered = claims();
            tampered[shard].public_values[value] ^= 1;
            let rebuilt = Verification::begin(&key(), &tampered, 3).unwrap().challenger();
            assert_ne!(rebuilt, honest);
        }
    }
    let mut unobserved = claims();
    unobserved[0].public_values[2] ^= 1;
    assert_eq!(
        Verification::begin(&key(), &unobserved, 2).unwrap().challenger(),
        Verification::begin(&key(), &claims(), 2).unwrap().challenger()
    );
}

#[test]
fn dropped_shard_changes_the_transcript() {
    let honest = Verification::begin(&key(), &claims(), 2).unwrap().challenger();
    let mut fewer = claims();
    fewer.pop();
    assert_ne!(Verification::begin(&key(), &fewer, 2).unwrap().challenger(), honest);
}

#[test]
fn conclude_accepts_when_every_check_passed() {
    let verification = Verification::begin(&key(), &claims(), 2).unwrap();
    assert_eq!(verification.conclude(&vec![None, None, None]), Ok(()));
    assert_eq!(verification.conclude(&vec![None, None, None, None]), Ok(()));
    let empty = Verification::begin(&key(), &vec![], 2).unwrap();
    assert_eq!(empty.conclude(&vec![]), Ok(()));
}

#[test]
fn conclude_reports_the_first_failed_check() {
    let verification = Verification::begin(&key(), &claims(), 2).unwrap();
    assert_eq!(
        verification.conclude(&vec![
            None,
            Some(VerificationFailure::DegreeBound),
            Some(VerificationFailure::CommitmentMismatch)
        ]),
        Err(ProverError::VerificationFailed { shard: 1, reason: VerificationFailure::DegreeBound })
    );
    assert_eq!(
        verification.conclude(&vec![Some(VerificationFailure::EvaluationMismatch), None, None]),
        Err(ProverError::VerificationFailed {
            shard: 0,
            reason: VerificationFailure::EvaluationMismatch
        })
    );
    assert_eq!(
        verification.conclude(&vec![None, None, Some(VerificationFailure::CommitmentMismatch)]),
        Err(ProverError::VerificationFailed {
            shard: 2,
            reason: VerificationFailure::CommitmentMismatch
        })
    );
}

#[test]
fn conclude_reports_a_missing_outcome() {
    let verification = Verification::begin(&key(), &claims(), 2).unwrap();
    assert_eq!(
        verification.conclude(&vec![None, None]),
        Err(ProverError::WorkerUnavailable { unit: 2 })
    );
    assert_eq!(verification.conclude(&vec![]), Err(ProverError::WorkerUnavailable { unit: 0 }));
    assert_eq!(
        verification.conclude(&vec![Some(VerificationFailure::DegreeBound)]),
        Err(ProverError::VerificationFailed { shard: 0, reason: VerificationFailure::DegreeBound })
    );
}

#[test]
fn public_values_keep_their_bytes() {
    let values = SP1PublicValues::from(&[1, 2, 3]);
    assert_eq!(values.to_vec(), vec![1, 2, 3]);
    assert_eq!(SP1PublicValues::from(&[]).to_vec(), Vec::<u8>::new());
}

#[test]
fn run_test_io_returns_the_public_output() {
    let proof = MachineProof { shard_proofs: proofs(vec![vec![1]]) };
    let out = run_test_io(&vec![4, 5, 6], Ok(proof));
    assert_eq!(out, Ok(SP1PublicValues::from(&[4, 5, 6])));
    assert_eq!(out.unwrap().to_vec(), vec![4, 5, 6]);
}

#[test]
fn run_test_io_returns_the_failure() {
    let failure =
        ProverError::VerificationFailed { shard: 3, reason: VerificationFailure::DegreeBound };
    assert_eq!(run_test_io(&vec![4, 5, 6], Err(failure)), Err(failure));
}

#[test]
fn run_test_machine_returns_the_verified_proof() {
    let proof = MachineProof { shard_proofs: proofs(vec![vec![1], vec![2]]) };
    let same = MachineProof { shard_proofs: proofs(vec![vec![1], vec![2]]) };
    assert_eq!(run_test_machine(proof, Ok(())), Ok(same));
    let proof = MachineProof { shard_proofs: proofs(vec![vec![1], vec![2]]) };
    let failure = ProverError::VerificationFailed {
        shard: 0,
        reason: VerificationFailure::CommitmentMismatch,
    };
    assert_eq!(run_test_machine(proof, Err(failure)), Err(failure));
}

#[test]
fn machine_proof_is_framed_like_its_parts() {
    let proof = MachineProof { shard_proofs: proofs(vec![vec![0xaa], vec![0xbb, 0xcc]]) };
    assert_eq!(
        proof.serialize(),
        vec![
            2, 0, 0, 0, 0, 0, 0, 0, 1, 0, 0, 0, 0, 0, 0, 0, 0xaa, 2, 0, 0, 0, 0, 0, 0, 0, 0xbb,
            0xcc
        ]
    );
    assert_eq!(proof.serialize(), part(vec![vec![0xaa], vec![0xbb, 0xcc]]).serialize());
}

#[test]
fn machine_proof_round_trip() {
    for list in [vec![], vec![vec![]], vec![vec![1, 2, 3], vec![], vec![9; 70000]]] {
        let proof = MachineProof { shard_proofs: proofs(list) };
        let bytes = proof.serialize();
        assert_eq!(MachineProof::deserialize(&bytes), Some(proof));
    }
}

#[test]
fn machine_proof_from_damaged_bytes() {
    let bytes = MachineProof { shard_proofs: proofs(vec![vec![1, 2, 3]]) }.serialize();
    assert_eq!(MachineProof::deserialize(&bytes[0..bytes.len() - 1]), None);
    assert_eq!(MachineProof::deserialize(&[]), None);
    let mut longer = bytes.clone();
    longer[0] = 2;
    assert_eq!(MachineProof::deserialize(&longer), None);
}
