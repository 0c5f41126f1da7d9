//! The machine proof: the shard proofs of a whole run, in shard order, and
//! the order of its verification.
//!
//! Verification mirrors proving. The verifier rebuilds the transcript from
//! what the proof declares for each shard, checks every shard against a copy
//! of it, and reports the first check that failed.

use crate::controller::Batch;
use crate::controller::all_commitments;
use crate::controller::all_public_values;
use crate::controller::commit_all;
use crate::controller::fully_committed;
use crate::controller::lemma_commit_pass_transcript;
use crate::controller::session_start;
use crate::error::ProverError;
use crate::error::VerificationFailure;
use crate::shard_proof::ShardProofData;
use crate::shard_proof::ShardProofResult;
use crate::shard_proof::concat_proofs;
use crate::shard_proof::decode_frames;
use crate::shard_proof::deserialize_proofs;
use crate::shard_proof::encode_frames;
use crate::shard_proof::frames_view;
use crate::shard_proof::lemma_round_trip;
use crate::shard_proof::proofs_view;
use crate::shard_proof::serialize_proofs;
use crate::transcript::Commitment;
use crate::transcript::Transcript;
use crate::transcript::VerifyingKey;
use crate::transcript::lemma_observations_bind;
use crate::transcript::observations;
use crate::transcript::observations_upto;
use vstd::prelude::*;
use vstd::slice::slice_subrange;
use vstd::slice::slice_to_vec;

verus! {

/// The proofs of all shards of a run, in shard order.
#[derive(Debug, PartialEq, Eq)]
pub struct MachineProof {
    pub shard_proofs: Vec<ShardProofData>,
}

impl View for MachineProof {
    type V = Seq<Seq<u8>>;

    open spec fn view(&self) -> Seq<Seq<u8>> {
        proofs_view(self.shard_proofs@)
    }
}

/// The contents of a sequence of results.
pub open spec fn results_view(results: Seq<ShardProofResult>) -> Seq<Seq<Seq<u8>>> {
    results.map_values(|r: ShardProofResult| r@)
}

/// Whether `i` is the first of the serialized results that carries no list
/// of proofs.
pub open spec fn first_corrupt(serialized: Seq<Seq<u8>>, i: int) -> bool {
    &&& 0 <= i < serialized.len()
    &&& decode_frames(serialized[i]) is None
    &&& forall|j: int| 0 <= j < i ==> decode_frames(#[trigger] serialized[j]) is Some
}

/// The proofs that serialized results carry, result by result.
pub open spec fn decoded_parts(serialized: Seq<Seq<u8>>) -> Seq<Seq<Seq<u8>>> {
    Seq::new(serialized.len(), |i: int| decode_frames(serialized[i]).unwrap())
}

impl MachineProof {
    /// The bytes that carry the proof to another process, or to storage.
    pub fn serialize(&self) -> (bytes: Vec<u8>)
        ensures
            bytes@ == encode_frames(self@),
    {
        serialize_proofs(&self.shard_proofs)
    }

    /// The proof that the bytes carry; none where the bytes are no list of
    /// frames.
    pub fn deserialize(bytes: &[u8]) -> (proof: Option<MachineProof>)
        ensures
            proof is Some <==> decode_frames(bytes@) is Some,
            proof matches Some(read) ==> decode_frames(bytes@) == Some(read@),
    {
        match deserialize_proofs(bytes) {
            Some(shard_proofs) => Some(MachineProof { shard_proofs }),
            None => None,
        }
    }

    /// Joins the results of the checkpoints of a run, given in checkpoint
    /// order, into the proof of the run.
    pub fn assemble(parts: Vec<ShardProofResult>) -> (proof: MachineProof)
        ensures
            proof@ == concat_proofs(results_view(parts@)),
    {
        let mut parts = parts;
        let ghost all = results_view(parts@);
        let n: usize = parts.len();
        let mut shard_proofs: Vec<ShardProofData> = Vec::new();
        let mut i: usize = 0;
        while i < n
            invariant
                i <= n,
                n == parts@.len(),
                n == all.len(),
                forall|j: int| i <= j < n ==> (#[trigger] parts@[j])@ == all[j],
                proofs_view(shard_proofs@) == concat_proofs(all.take(i as int)),
            decreases n - i,
        {
            let mut taken = ShardProofResult { shard_proofs: Vec::new() };
            core::mem::swap(&mut parts[i], &mut taken);
            shard_proofs.append(&mut taken.shard_proofs);
            i += 1;
            proof {
                assert(all.take(i as int).drop_last() =~= all.take(i - 1));
            }
        }
        assert(all.take(n as int) =~= all);
        MachineProof { shard_proofs }
    }

    /// Joins serialized results, given in checkpoint order, into the proof of
    /// the run. The first result that cannot be decoded gives
    /// `CheckpointCorrupt` with its place.
    pub fn assemble_partial(serialized: &Vec<Vec<u8>>) -> (out: Result<MachineProof, ProverError>)
        ensures
            out is Ok <==> forall|i: int|
                0 <= i < serialized@.len() ==> decode_frames(#[trigger] serialized@[i]@) is Some,
            out matches Ok(proof) ==> proof@ == concat_proofs(
                decoded_parts(frames_view(serialized@)),
            ),
            out matches Err(e) ==> (e matches ProverError::CheckpointCorrupt { checkpoint }
                && first_corrupt(frames_view(serialized@), checkpoint as int)),
    {
        let ghost blobs = frames_view(serialized@);
        let mut parts: Vec<ShardProofResult> = Vec::new();
        let mut i: usize = 0;
        while i < serialized.len()
            invariant
                i <= serialized@.len(),
                blobs == frames_view(serialized@),
                parts@.len() == i,
                forall|j: int| 0 <= j < i ==> decode_frames(#[trigger] blobs[j]) is Some,
                forall|j: int|
                    0 <= j < i ==> (#[trigger] parts@[j])@ == decode_frames(blobs[j]).unwrap(),
            decreases serialized@.len() - i,
        {
            match ShardProofResult::deserialize(serialized[i].as_slice()) {
                None => {
                    return Err(ProverError::CheckpointCorrupt { checkpoint: i });
                },
                Some(part) => {
                    parts.push(part);
                },
            }
            i += 1;
        }
        proof {
            assert(results_view(parts@) =~= decoded_parts(blobs));
            assert forall|j: int| 0 <= j < serialized@.len() implies decode_frames(
                #[trigger] serialized@[j]@,
            ) is Some by {
                assert(blobs[j] == serialized@[j]@);
            }
        }
        Ok(MachineProof::assemble(parts))
    }
}

/// What a shard proof declares of its shard.
#[derive(Debug, PartialEq, Eq)]
pub struct ShardClaim {
    /// The place of the shard among the shards of the run.
    pub index: usize,
    /// The commitment to the trace of the shard.
    pub commitment: Commitment,
    /// The public values of the shard.
    pub public_values: Vec<u32>,
}

/// The commitments that a sequence of claims declares.
pub open spec fn claimed_commitments(claims: Seq<ShardClaim>) -> Seq<Seq<u32>> {
    claims.map_values(|c: ShardClaim| c.commitment@)
}

/// The public values that a sequence of claims declares.
pub open spec fn claimed_public_values(claims: Seq<ShardClaim>) -> Seq<Seq<u32>> {
    claims.map_values(|c: ShardClaim| c.public_values@)
}

/// Whether `i` is the first place at which the claims leave the order
/// `0, 1, 2, ...`.
pub open spec fn first_out_of_order(claims: Seq<ShardClaim>, i: int) -> bool {
    &&& 0 <= i < claims.len()
    &&& claims[i].index != i
    &&& forall|j: int| 0 <= j < i ==> (#[trigger] claims[j]).index == j
}

/// Whether `i` is the first claim with fewer public values than the
/// transcript observes.
pub open spec fn first_short(claims: Seq<ShardClaim>, num_pv_elts: nat, i: int) -> bool {
    &&& 0 <= i < claims.len()
    &&& claims[i].public_values@.len() < num_pv_elts
    &&& forall|j: int| 0 <= j < i ==> num_pv_elts <= (#[trigger] claims[j]).public_values@.len()
}

/// The shards are in order: the claim at place `i` declares the index `i`.
pub open spec fn in_order(claims: Seq<ShardClaim>) -> bool {
    forall|i: int| 0 <= i < claims.len() ==> (#[trigger] claims[i]).index == i
}

/// Every claim has the public values that the transcript observes.
pub open spec fn well_shaped(claims: Seq<ShardClaim>, num_pv_elts: nat) -> bool {
    forall|i: int| 0 <= i < claims.len() ==> num_pv_elts <= (#[trigger] claims[i]).public_values@.len()
}

/// The transcript of the verifier: the verifying key, then for each shard in
/// order what the proof declares of it.
pub open spec fn verifier_transcript(
    vk: VerifyingKey,
    claims: Seq<ShardClaim>,
    num_pv_elts: nat,
) -> Seq<u32> {
    vk.observation() + observations(
        claimed_commitments(claims),
        claimed_public_values(claims),
        num_pv_elts,
    )
}

/// Checks that shard indices are `0, 1, 2, ...` without a gap.
pub fn check_shard_order(claims: &Vec<ShardClaim>) -> (out: Result<(), ProverError>)
    ensures
        out is Ok <==> in_order(claims@),
        out matches Err(e) ==> (e matches ProverError::ShardingViolation { position }
            && first_out_of_order(claims@, position as int)),
{
    let mut i: usize = 0;
    while i < claims.len()
        invariant
            i <= claims@.len(),
            forall|j: int| 0 <= j < i ==> (#[trigger] claims@[j]).index == j,
        decreases claims@.len() - i,
    {
        if claims[i].index != i {
            return Err(ProverError::ShardingViolation { position: i });
        }
        i += 1;
    }
    Ok(())
}

/// A verification under way: the transcript is rebuilt, the shards are to be
/// checked against copies of it.
#[derive(Debug, PartialEq, Eq)]
pub struct Verification {
    transcript: Transcript,
    shards: usize,
}

/// Whether the shard at place `i` is the first without a passed check: its
/// outcome is missing or names a failed check.
pub open spec fn first_failure(
    shards: nat,
    outcomes: Seq<Option<VerificationFailure>>,
    i: int,
) -> bool {
    &&& 0 <= i < shards
    &&& (i >= outcomes.len() || outcomes[i] is Some)
    &&& forall|j: int| 0 <= j < i ==> j < outcomes.len() && (#[trigger] outcomes[j]) is None
}

/// What the shard at place `i` is reported with, where it is the first
/// without a passed check.
pub open spec fn failure_at(outcomes: Seq<Option<VerificationFailure>>, i: int) -> ProverError {
    if i >= outcomes.len() {
        ProverError::WorkerUnavailable { unit: i as usize }
    } else {
        ProverError::VerificationFailed { shard: i as usize, reason: outcomes[i]->Some_0 }
    }
}

/// Every shard has passed its checks.
pub open spec fn all_passed(shards: nat, outcomes: Seq<Option<VerificationFailure>>) -> bool {
    forall|i: int| 0 <= i < shards ==> i < outcomes.len() && (#[trigger] outcomes[i]) is None
}

impl Verification {
    /// Everything the verifier observed.
    pub closed spec fn transcript(self) -> Seq<u32> {
        self.transcript@
    }

    /// The number of shards to check.
    pub closed spec fn shards(self) -> nat {
        self.shards as nat
    }

    /// Starts the verification of a machine proof, given what it declares
    /// for each shard: checks the order of the shards and rebuilds the
    /// transcript in that order.
    ///
    /// Shards out of order are a `ShardingViolation` at the first place out
    /// of order. With the shards in order, a shard that declares fewer
    /// public values than the transcript observes fails verification.
    pub fn begin(vk: &VerifyingKey, claims: &Vec<ShardClaim>, num_pv_elts: usize) -> (out: Result<
        Verification,
        ProverError,
    >)
        ensures
            out is Ok <==> in_order(claims@) && well_shaped(claims@, num_pv_elts as nat),
            out matches Ok(v) ==> v.transcript() == verifier_transcript(
                *vk,
                claims@,
                num_pv_elts as nat,
            ) && v.shards() == claims@.len(),
            !in_order(claims@) ==> (out matches Err(ProverError::ShardingViolation { position })
                && first_out_of_order(claims@, position as int)),
            in_order(claims@) && !well_shaped(claims@, num_pv_elts as nat) ==> (out matches Err(
                ProverError::VerificationFailed {
                    shard,
                    reason: VerificationFailure::PublicValuesMissing,
                },
            ) && first_short(claims@, num_pv_elts as nat, shard as int)),
    {
        match check_shard_order(claims) {
            Err(e) => {
                return Err(e);
            },
            Ok(()) => {},
        }
        let mut transcript = Transcript::new();
        vk.observe_into(&mut transcript);
        let ghost cs = claimed_commitments(claims@);
        let ghost ps = claimed_public_values(claims@);
        let mut i: usize = 0;
        while i < claims.len()
            invariant
                i <= claims@.len(),
                in_order(claims@),
                cs == claimed_commitments(claims@),
                ps == claimed_public_values(claims@),
                forall|j: int|
                    0 <= j < i ==> num_pv_elts <= (#[trigger] claims@[j]).public_values@.len(),
                transcript@ == vk.observation() + observations_upto(
                    cs,
                    ps,
                    num_pv_elts as nat,
                    i as nat,
                ),
            decreases claims@.len() - i,
        {
            if claims[i].public_values.len() < num_pv_elts {
                return Err(
                    ProverError::VerificationFailed {
                        shard: i,
                        reason: VerificationFailure::PublicValuesMissing,
                    },
                );
            }
            transcript.observe_commitment(&claims[i].commitment);
            transcript.observe_slice(
                slice_subrange(claims[i].public_values.as_slice(), 0, num_pv_elts),
            );
            i += 1;
        }
        Ok(Verification { transcript, shards: claims.len() })
    }

    /// A copy of the verifier's transcript for the check of one shard.
    pub fn challenger(&self) -> (copy: Transcript)
        ensures
            copy@ == self.transcript(),
    {
        self.transcript.clone()
    }

    /// Concludes from the outcome of each shard's check, given in shard
    /// order: nothing for a check that passed, else the check that failed.
    ///
    /// The first shard without a passed check decides: a failed check is a
    /// `VerificationFailed` with the shard and the check, a missing outcome
    /// is a `WorkerUnavailable`.
    pub fn conclude(&self, outcomes: &Vec<Option<VerificationFailure>>) -> (out: Result<
        (),
        ProverError,
    >)
        ensures
            out is Ok <==> all_passed(self.shards(), outcomes@),
            out matches Err(e) ==> (exists|i: int|
                #[trigger] first_failure(self.shards(), outcomes@, i) && e == failure_at(
                    outcomes@,
                    i,
                )),
    {
        let mut i: usize = 0;
        while i < self.shards
            invariant
                i <= self.shards,
                forall|j: int| 0 <= j < i ==> j < outcomes@.len() && (#[trigger] outcomes@[j]) is None,
            decreases self.shards - i,
        {
            if i >= outcomes.len() {
                assert(first_failure(self.shards(), outcomes@, i as int));
                return Err(ProverError::WorkerUnavailable { unit: i });
            }
            match outcomes[i] {
                Some(reason) => {
                    assert(first_failure(self.shards(), outcomes@, i as int));
                    return Err(ProverError::VerificationFailed { shard: i, reason });
                },
                None => {},
            }
            i += 1;
        }
        Ok(())
    }
}

/// The public output of a program.
#[derive(Debug, PartialEq, Eq)]
pub struct SP1PublicValues {
    buffer: Vec<u8>,
}

impl View for SP1PublicValues {
    type V = Seq<u8>;

    closed spec fn view(&self) -> Seq<u8> {
        self.buffer@
    }
}

impl SP1PublicValues {
    /// The public output with the given bytes.
    pub fn from(data: &[u8]) -> (values: SP1PublicValues)
        ensures
            values@ == data@,
    {
        SP1PublicValues { buffer: slice_to_vec(data) }
    }

    /// The bytes of the public output.
    pub fn to_vec(&self) -> (bytes: Vec<u8>)
        ensures
            bytes@ == self@,
    {
        slice_to_vec(self.buffer.as_slice())
    }
}

/// The end of a test run of a machine: the proof, where its verification
/// passed, else the failure of the verification.
pub fn run_test_machine(proof: MachineProof, verification: Result<(), ProverError>) -> (out: Result<
    MachineProof,
    ProverError,
>)
    ensures
        verification is Ok ==> out == Ok::<MachineProof, ProverError>(proof),
        verification matches Err(e) ==> out == Err::<MachineProof, ProverError>(e),
{
    match verification {
        Ok(()) => Ok(proof),
        Err(e) => Err(e),
    }
}

/// The end of a test run of a program: its public output, as captured when
/// the program halted, where proving and verifying the run succeeded, else
/// the failure.
pub fn run_test_io(public_values_stream: &Vec<u8>, outcome: Result<MachineProof, ProverError>) -> (out:
    Result<SP1PublicValues, ProverError>)
    ensures
        outcome is Ok ==> (out matches Ok(values) && values@ == public_values_stream@),
        outcome matches Err(e) ==> out == Err::<SP1PublicValues, ProverError>(e),
{
    let public_values = SP1PublicValues::from(public_values_stream.as_slice());
    match outcome {
        Ok(_) => Ok(public_values),
        Err(e) => Err(e),
    }
}

/// Round trip for the proof of a run: `deserialize` gives back what
/// `serialize` wrote.
pub proof fn lemma_machine_proof_round_trip(proof: MachineProof)
    ensures
        decode_frames(encode_frames(proof@)) == Some(proof@),
{
    assert(proof.shard_proofs@.len() == proof.shard_proofs.len());
    lemma_round_trip(proof.shard_proofs@);
}

/// Verification mirrors the commit pass: where the proof declares, shard by
/// shard and in execution order, the commitments and the public values of the
/// shards that a run committed, the verifier rebuilds the canonical
/// transcript of that run, however the run was cut into checkpoints.
pub proof fn lemma_verifier_rebuilds_canonical_transcript(
    vk: VerifyingKey,
    public_values: Seq<u32>,
    num_pv_elts: nat,
    capacity: nat,
    batches: Seq<Batch>,
    claims: Seq<ShardClaim>,
)
    requires
        fully_committed(batches),
        claimed_commitments(claims) == all_commitments(batches),
        claimed_public_values(claims) == all_public_values(batches),
    ensures
        verifier_transcript(vk, claims, num_pv_elts) == commit_all(
            session_start(vk, public_values, num_pv_elts, capacity, batches.len()),
            batches,
        ).transcript,
{
    lemma_commit_pass_transcript(
        session_start(vk, public_values, num_pv_elts, capacity, batches.len()),
        batches,
    );
}

/// Whether two proofs differ at shard `i`: in the commitment or in an
/// observed public value.
pub open spec fn differs_at(
    claims: Seq<ShardClaim>,
    tampered: Seq<ShardClaim>,
    num_pv_elts: nat,
    i: int,
) -> bool {
    &&& 0 <= i < claims.len()
    &&& i < tampered.len()
    &&& (claims[i].commitment@ != tampered[i].commitment@ || claims[i].public_values@.take(
        num_pv_elts as int,
    ) != tampered[i].public_values@.take(num_pv_elts as int))
}

/// Tampering shows in the transcript: two proofs of well-shaped claims that
/// differ in the number of shards, in a commitment or in an observed public
/// value give the verifier different transcripts, and so different
/// challenges.
pub proof fn lemma_tamper_changes_transcript(
    vk: VerifyingKey,
    claims: Seq<ShardClaim>,
    tampered: Seq<ShardClaim>,
    num_pv_elts: nat,
)
    requires
        well_shaped(claims, num_pv_elts),
        well_shaped(tampered, num_pv_elts),
        claims.len() != tampered.len() || exists|i: int|
            differs_at(claims, tampered, num_pv_elts, i),
    ensures
        verifier_transcript(vk, claims, num_pv_elts) != verifier_transcript(
            vk,
            tampered,
            num_pv_elts,
        ),
{
    let c1 = claimed_commitments(claims);
    let v1 = claimed_public_values(claims);
    let c2 = claimed_commitments(tampered);
    let v2 = claimed_public_values(tampered);
    let w1 = observations(c1, v1, num_pv_elts);
    let w2 = observations(c2, v2, num_pv_elts);
    if verifier_transcript(vk, claims, num_pv_elts) == verifier_transcript(
        vk,
        tampered,
        num_pv_elts,
    ) {
        let head = vk.observation();
        assert(w1 =~= (head + w1).skip(head.len() as int));
        assert(w2 =~= (head + w2).skip(head.len() as int));
        assert forall|i: int| 0 <= i < c1.len() implies (#[trigger] c1[i]).len() == 8 by {
        }
        assert forall|i: int| 0 <= i < c2.len() implies (#[trigger] c2[i]).len() == 8 by {
        }
        assert forall|i: int| 0 <= i < v1.len() implies num_pv_elts <= (#[trigger] v1[i]).len() by {
        }
        assert forall|i: int| 0 <= i < v2.len() implies num_pv_elts <= (#[trigger] v2[i]).len() by {
        }
        lemma_observations_bind(c1, v1, c2, v2, num_pv_elts, 8);
        let i = choose|i: int| differs_at(claims, tampered, num_pv_elts, i);
        assert(c1[i] == claims[i].commitment@);
        assert(c2[i] == tampered[i].commitment@);
        assert(v1[i] == claims[i].public_values@);
        assert(v2[i] == tampered[i].public_values@);
        assert(false);
    }
}

} // verus!
