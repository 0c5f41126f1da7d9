use shard_prover::controller::{
    select_path, CommitPass, CommitStep, ExecutePass, ExecuteStep, Halted, PendingCommit,
    PendingProof, ProveAction, ProvePass, ProveStep, ProvingPath,
};
use shard_prover::error::ProverError;
use shard_prover::shard_proof::ShardProofData;
use shard_prover::sharding::{Event, EventKind, ExecutionRecord, Shard, ShardingConfig};
use shard_prover::transcript::{Commitment, VerifyingKey};

const NUM_PV: usize = 2;

fn vk() -> VerifyingKey {
    VerifyingKey { commitment: Commitment { digest: [1, 2, 3, 4, 5, 6, 7, 8] }, pc_start: 64 }
}

fn public_values() -> Vec<u32> {
    vec![11, 22, 33]
}

fn record(first_clk: u32, len: u32) -> ExecutionRecord {
    ExecutionRecord {
        events: (first_clk..first_clk + len)
            .map(|clk| Event { kind: EventKind::Cpu, clk, value: clk + 1000 })
            .collect(),
        public_values: Vec::new(),
    }
}

// Stands for the commitment of a backend: depends on every event of the shard.
fn commit(shard: &Shard) -> Commitment {
    let mut digest = [0u32; 8];
    for (i, e) in shard.events.iter().enumerate() {
        digest[i % 8] = digest[i % 8].wrapping_mul(31).wrapping_add(e.clk ^ e.value);
    }
    Commitment { digest }
}

fn commit_all(shards: &Vec<Shard>) -> Vec<Commitment> {
    shards.iter().map(commit).collect()
}

// Stands for the proof of a backend: the place of the shard in the run and its commitment.
fn make_proofs(first_index: usize, shards: &Vec<Shard>) -> Vec<ShardProofData> {
    shards
        .iter()
        .map(|s| {
            let mut proof = vec![(first_index + s.index) as u8];
            proof.extend(commit(s).digest.iter().map(|w| *w as u8));
            ShardProofData { proof }
        })
        .collect()
}

fn halted(checkpoints: usize) -> Halted {
    let mut pass = ExecutePass::new();
    for taken in 0..checkpoints {
        assert_eq!(pass.checkpoints(), taken);
        match pass.checkpoint_taken(taken + 1 == checkpoints) {
            ExecuteStep::Continue(next) => pass = next,
            ExecuteStep::Done(h) => return h,
        }
    }
    unreachable!()
}

fn start(checkpoints: usize, max_events: usize) -> CommitPass {
    CommitPass::start(
        halted(checkpoints),
        &vk(),
        public_values(),
        NUM_PV,
        ShardingConfig::new(max_events).unwrap(),
    )
}

fn commit_pass(records: &Vec<(u32, u32)>, max_events: usize) -> ProvePass {
    let mut pass = start(records.len(), max_events);
    for (k, (first, len)) in records.iter().enumerate() {
        assert_eq!(pass.next_checkpoint(), k);
        let pending: PendingCommit = pass.replayed(Some(record(*first, *len))).unwrap();
        let commitments = commit_all(pending.shards());
        match pending.committed(commitments).unwrap() {
            CommitStep::Continue(next) => {
                assert!(k + 1 < records.len());
                pass = next;
            }
            CommitStep::Complete(prove) => {
                assert_eq!(k + 1, records.len());
                return prove;
            }
        }
    }
    unreachable!()
}

fn pending_proof(pass: ProvePass, records: &Vec<(u32, u32)>) -> PendingProof {
    let k = pass.next_checkpoint();
    match pass.next() {
        ProveAction::UseCached(pending) => pending,
        ProveAction::Replay(pass) => pass.replayed(Some(record(records[k].0, records[k].1))).unwrap(),
    }
}

fn prove_pass(mut pass: ProvePass, records: &Vec<(u32, u32)>) -> Vec<ShardProofData> {
    loop {
        let pending = pending_proof(pass, records);
        let recommitted = commit_all(pending.shards());
        let proofs = make_proofs(pending.first_index(), pending.shards());
        match pending.proved(&recommitted, proofs).unwrap() {
            ProveStep::Continue(next) => pass = next,
            ProveStep::Complete(all) => return all,
        }
    }
}

#[test]
fn batch_size_zero_selects_the_direct_path() {
    assert_eq!(select_path(0), ProvingPath::Direct);
    assert_eq!(select_path(1), ProvingPath::Checkpointed);
    assert_eq!(select_path(usize::MAX), ProvingPath::Checkpointed);
}

#[test]
fn execute_pass_counts_checkpoints_until_done() {
    assert_eq!(halted(1).checkpoints(), 1);
    assert_eq!(halted(5).checkpoints(), 5);
    let pass = ExecutePass::new();
    assert_eq!(pass.checkpoints(), 0);
    match pass.checkpoint_taken(false) {
        ExecuteStep::Continue(next) => assert_eq!(next.checkpoints(), 1),
        ExecuteStep::Done(_) => panic!("the program has not halted"),
    }
}

#[test]
fn commit_pass_observes_key_then_every_shard_in_order() {
    let records = vec![(0, 4), (4, 3)];
    let prove = commit_pass(&records, 2);
    let mut expected: Vec<u32> = vec![1, 2, 3, 4, 5, 6, 7, 8, 64];
    for (first, len) in [(0u32, 2u32), (2, 2), (4, 2), (6, 1)] {
        let shard = Shard { index: 0, events: record(first, len).events, public_values: vec![] };
        expected.extend(commit(&shard).digest);
        expected.extend([11, 22]);
    }
    assert_eq!(prove.challenger().observed(), &expected);
}

#[test]
fn replayed_record_gets_the_public_values_of_the_program() {
    let pass = start(1, 2);
    let pending = pass.replayed(Some(record(0, 3))).unwrap();
    let shards = pending.shards();
    assert_eq!(shards.len(), 2);
    assert_eq!(shards[0].index, 0);
    assert_eq!(shards[1].index, 1);
    assert_eq!(shards[0].public_values, public_values());
    assert_eq!(shards[1].public_values, public_values());
    assert_eq!(shards[1].events, record(2, 1).events);
}

#[test]
fn transcript_does_not_depend_on_the_checkpoints() {
    let one = commit_pass(&vec![(0, 12)], 2);
    let two = commit_pass(&vec![(0, 4), (4, 8)], 2);
    let three = commit_pass(&vec![(0, 2), (2, 6), (8, 4)], 2);
    assert_eq!(one.challenger(), two.challenger());
    assert_eq!(one.challenger(), three.challenger());
}

#[test]
fn full_run_gives_proofs_in_shard_order() {
    let records = vec![(0, 4), (4, 3), (7, 2)];
    let prove = commit_pass(&records, 2);
    let proofs = prove_pass(prove, &records);
    assert_eq!(proofs.len(), 5);
    for (i, p) in proofs.iter().enumerate() {
        assert_eq!(p.proof[0], i as u8);
    }
}

#[test]
fn proving_hands_out_the_complete_transcript() {
    let records = vec![(0, 4), (4, 3)];
    let prove = commit_pass(&records, 2);
    let canonical = prove.challenger();
    let pending = pending_proof(prove, &records);
    assert_eq!(pending.challenger(), canonical);
    let mut copy = pending.challenger();
    copy.observe(5);
    assert_eq!(pending.challenger(), canonical);
    assert_eq!(pending.first_index(), 0);
    let recommitted = commit_all(pending.shards());
    let proofs = make_proofs(0, pending.shards());
    match pending.proved(&recommitted, proofs).unwrap() {
        ProveStep::Continue(next) => {
            assert_eq!(next.next_checkpoint(), 1);
            assert_eq!(next.challenger(), canonical);
            let pending = pending_proof(next, &records);
            assert_eq!(pending.first_index(), 2);
        }
        ProveStep::Complete(_) => panic!("one checkpoint is left"),
    }
}

#[test]
fn single_checkpoint_reuses_its_shards() {
    let records = vec![(0, 5)];
    let prove = commit_pass(&records, 2);
    match prove.next() {
        ProveAction::UseCached(pending) => {
            assert_eq!(pending.shards().len(), 3);
            assert_eq!(pending.shards()[2].events, record(4, 1).events);
            assert_eq!(pending.shards()[0].public_values, public_values());
        }
        ProveAction::Replay(_) => panic!("the shards were kept"),
    }
}

#[test]
fn reused_shards_give_the_proofs_of_a_replay() {
    let records = vec![(0, 5)];
    let reused = prove_pass(commit_pass(&records, 2), &records);
    let replayed = {
        let pass = commit_pass(&records, 2);
        let pending = pass.replayed(Some(record(0, 5))).unwrap();
        let recommitted = commit_all(pending.shards());
        let proofs = make_proofs(pending.first_index(), pending.shards());
        match pending.proved(&recommitted, proofs).unwrap() {
            ProveStep::Complete(all) => all,
            ProveStep::Continue(_) => panic!("the run has one checkpoint"),
        }
    };
    assert_eq!(reused, replayed);
}

#[test]
fn several_checkpoints_are_replayed() {
    let records = vec![(0, 2), (2, 2)];
    let prove = commit_pass(&records, 2);
    match prove.next() {
        ProveAction::Replay(pass) => assert_eq!(pass.next_checkpoint(), 0),
        ProveAction::UseCached(_) => panic!("nothing was kept"),
    }
}

#[test]
fn partial_proofs_join_to_the_full_proof() {
    let records = vec![(0, 4), (4, 3), (7, 2)];
    let full = prove_pass(commit_pass(&records, 2), &records);
    let canonical = commit_pass(&records, 2).challenger();
    let mut joined = Vec::new();
    for k in 0..records.len() {
        let pass = commit_pass(&records, 2).only(k).unwrap();
        assert_eq!(pass.next_checkpoint(), k);
        assert_eq!(pass.challenger(), canonical);
        joined.extend(prove_pass(pass, &records));
    }
    assert_eq!(joined, full);
}

#[test]
fn partial_proof_of_one_checkpoint() {
    let records = vec![(0, 4), (4, 3), (7, 2)];
    let pass = commit_pass(&records, 2).only(1).unwrap();
    let proofs = prove_pass(pass, &records);
    assert_eq!(proofs.len(), 2);
    assert_eq!(proofs[0].proof[0], 2);
    assert_eq!(proofs[1].proof[0], 3);
}

#[test]
fn partial_proof_of_a_missing_checkpoint_is_none() {
    let records = vec![(0, 4), (4, 3)];
    assert!(commit_pass(&records, 2).only(2).is_none());
    assert!(commit_pass(&records, 2).only(usize::MAX).is_none());
    assert!(commit_pass(&records, 2).only(1).is_some());
    let restricted = commit_pass(&records, 2).only(1).unwrap();
    assert!(restricted.only(0).is_none());
}

#[test]
fn corrupt_checkpoint_in_the_commit_pass() {
    let pass = start(2, 2);
    assert_eq!(pass.replayed(None), Err(ProverError::CheckpointCorrupt { checkpoint: 0 }));

    let pass = start(2, 2);
    let pending = pass.replayed(Some(record(0, 2))).unwrap();
    let commitments = commit_all(pending.shards());
    match pending.committed(commitments).unwrap() {
        CommitStep::Continue(next) => {
            assert_eq!(next.replayed(None), Err(ProverError::CheckpointCorrupt { checkpoint: 1 }));
        }
        CommitStep::Complete(_) => panic!("one checkpoint is left"),
    }
}

#[test]
fn corrupt_checkpoint_in_the_prove_pass() {
    let records = vec![(0, 4), (4, 3)];
    let prove = commit_pass(&records, 2);
    assert_eq!(prove.replayed(None), Err(ProverError::CheckpointCorrupt { checkpoint: 0 }));
    let prove = commit_pass(&records, 2).only(1).unwrap();
    assert_eq!(prove.replayed(None), Err(ProverError::CheckpointCorrupt { checkpoint: 1 }));
}

#[test]
fn missing_or_extra_commitments_are_a_sharding_violation() {
    let pending = start(1, 2).replayed(Some(record(0, 6))).unwrap();
    let mut commitments = commit_all(pending.shards());
    commitments.pop();
    assert_eq!(
        pending.committed(commitments),
        Err(ProverError::ShardingViolation { position: 2 })
    );

    let pending = start(1, 2).replayed(Some(record(0, 6))).unwrap();
    let mut commitments = commit_all(pending.shards());
    commitments.push(Commitment { digest: [0; 8] });
    assert_eq!(
        pending.committed(commitments),
        Err(ProverError::ShardingViolation { position: 3 })
    );
}

#[test]
fn another_number_of_shards_on_replay_is_non_determinism() {
    let records = vec![(0, 4), (4, 3)];
    let prove = commit_pass(&records, 2);
    assert_eq!(
        prove.replayed(Some(record(0, 5))),
        Err(ProverError::ReplayNonDeterminism { checkpoint: 0 })
    );
    let prove = commit_pass(&records, 2).only(1).unwrap();
    assert_eq!(
        prove.replayed(Some(record(4, 1))),
        Err(ProverError::ReplayNonDeterminism { checkpoint: 1 })
    );
}

#[test]
fn other_events_on_replay_are_non_determinism() {
    let records = vec![(0, 4), (4, 3)];
    let prove = commit_pass(&records, 2);
    let pending = prove.replayed(Some(record(100, 4))).unwrap();
    let recommitted = commit_all(pending.shards());
    let proofs = make_proofs(0, pending.shards());
    assert_eq!(
        pending.proved(&recommitted, proofs),
        Err(ProverError::ReplayNonDeterminism { checkpoint: 0 })
    );
}

#[test]
fn missing_commitment_on_replay_is_non_determinism() {
    let records = vec![(0, 4), (4, 3)];
    let pending = pending_proof(commit_pass(&records, 2), &records);
    let mut recommitted = commit_all(pending.shards());
    recommitted.pop();
    let proofs = make_proofs(0, pending.shards());
    assert_eq!(
        pending.proved(&recommitted, proofs),
        Err(ProverError::ReplayNonDeterminism { checkpoint: 0 })
    );
}

#[test]
fn missing_or_extra_proofs_are_a_sharding_violation() {
    let records = vec![(0, 4), (4, 3)];
    let pending = pending_proof(commit_pass(&records, 2), &records);
    let recommitted = commit_all(pending.shards());
    let mut proofs = make_proofs(0, pending.shards());
    proofs.pop();
    assert_eq!(
        pending.proved(&recommitted, proofs),
        Err(ProverError::ShardingViolation { position: 1 })
    );

    let pending = pending_proof(commit_pass(&records, 2), &records);
    let recommitted = commit_all(pending.shards());
    let mut proofs = make_proofs(0, pending.shards());
    proofs.push(ShardProofData { proof: vec![] });
    assert_eq!(
        pending.proved(&recommitted, proofs),
        Err(ProverError::ShardingViolation { position: 2 })
    );
}

#[test]
fn checkpoint_without_events_has_no_shards() {
    let records = vec![(0, 2), (2, 0), (2, 2)];
    let prove = commit_pass(&records, 2);
    let proofs = prove_pass(prove, &records);
    assert_eq!(proofs.len(), 2);
    assert_eq!(proofs[0].proof[0], 0);
    assert_eq!(proofs[1].proof[0], 1);
}

#[test]
fn prove_pass_knows_where_the_shards_of_each_checkpoint_stand() {
    let records = vec![(0, 4), (4, 3), (7, 0), (7, 5)];
    let pass = commit_pass(&records, 2);
    assert_eq!(pass.shard_counts(), vec![2, 2, 0, 3]);
    assert_eq!(pass.first_indices(), vec![0, 2, 4, 4]);
    let one = commit_pass(&vec![(0, 1)], 2);
    assert_eq!(one.shard_counts(), vec![1]);
    assert_eq!(one.first_indices(), vec![0]);
}

#[test]
fn shards_are_numbered_over_the_whole_run() {
    let records = vec![(0, 4), (4, 3), (7, 0), (7, 5)];
    // In the commit pass.
    let mut pass = start(records.len(), 2);
    let mut seen = Vec::new();
    let prove = loop {
        let k = pass.next_checkpoint();
        let pending = pass.replayed(Some(record(records[k].0, records[k].1))).unwrap();
        assert_eq!(pending.first_index(), seen.len());
        for i in 0..pending.shards().len() {
            assert_eq!(pending.shards()[i].index, i);
            seen.push(pending.global_index(i));
        }
        let commitments = commit_all(pending.shards());
        match pending.committed(commitments).unwrap() {
            CommitStep::Continue(next) => pass = next,
            CommitStep::Complete(prove) => break prove,
        }
    };
    assert_eq!(seen, (0..7).collect::<Vec<usize>>());
    // In the prove pass.
    let mut pass = prove;
    let mut seen = Vec::new();
    loop {
        let pending = pending_proof(pass, &records);
        for i in 0..pending.shards().len() {
            seen.push(pending.global_index(i));
        }
        if !pending.shards().is_empty() {
            assert_eq!(pending.global_index(0), pending.first_index());
        }
        let recommitted = commit_all(pending.shards());
        let proofs = make_proofs(pending.first_index(), pending.shards());
        match pending.proved(&recommitted, proofs).unwrap() {
            ProveStep::Continue(next) => pass = next,
            ProveStep::Complete(_) => break,
        }
    }
    assert_eq!(seen, (0..7).collect::<Vec<usize>>());
    // In the partial runs, joined in checkpoint order.
    let mut seen = Vec::new();
    for k in 0..records.len() {
        let pending = pending_proof(commit_pass(&records, 2).only(k).unwrap(), &records);
        for i in 0..pending.shards().len() {
            seen.push(pending.global_index(i));
        }
    }
    assert_eq!(seen, (0..7).collect::<Vec<usize>>());
}

#[test]
fn prove_pass_keeps_the_commitments_of_each_checkpoint() {
    let records = vec![(0, 4), (4, 3), (7, 0)];
    let pass = commit_pass(&records, 2);
    let mut expected = Vec::new();
    for (first, len) in records.iter() {
        let shards = shard_prover::sharding::shard(
            &record(*first, *len),
            &ShardingConfig::new(2).unwrap(),
        );
        expected.push(commit_all(&shards));
    }
    assert_eq!(pass.expected_commitments(), expected);
    assert_eq!(pass.expected_commitments()[2], vec![]);
}
