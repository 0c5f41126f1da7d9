//! Proving on workers: self-contained units of work, one per checkpoint, and
//! the coordinator that puts their results back in order.
//!
//! Results are kept by the index of their unit, so the proof of the run does
//! not depend on the order in which the workers answer.

use crate::error::ProverError;
use crate::machine::MachineProof;
use crate::shard_proof::ShardProofResult;
use crate::shard_proof::concat_proofs;
use crate::shard_proof::decode_frames;
use crate::shard_proof::encode_frames;
use crate::shard_proof::frames_view;
use crate::shard_proof::serialize_frames;
use crate::sharding::ExecutionRecord;
use crate::sharding::RecordView;
use crate::sharding::Shard;
use crate::sharding::ShardingConfig;
use crate::sharding::shard;
use crate::sharding::shards_of;
use crate::sharding::shards_view;
use crate::transcript::Commitment;
use crate::transcript::commitments_view;
use crate::transcript::same_commitments;
use vstd::prelude::*;
use vstd::slice::slice_to_vec;

verus! {

/// The computation to be proven.
#[derive(Debug, PartialEq, Eq)]
pub struct Program {
    /// The program image.
    pub image: Vec<u8>,
}

impl Clone for Program {
    fn clone(&self) -> (copy: Program)
        ensures
            copy.image@ == self.image@,
    {
        Program { image: slice_to_vec(self.image.as_slice()) }
    }
}

/// All that a worker needs to prove the shards of one checkpoint.
#[derive(Debug, PartialEq, Eq)]
pub struct ShardData {
    pub program: Program,
    /// The serialized checkpoint.
    pub checkpoint: Vec<u8>,
    /// The public values of the whole program.
    pub public_values: Vec<u32>,
    /// The place of the first shard of the checkpoint among the shards of
    /// the run.
    pub first_index: usize,
}

/// The mathematical content of a [`ShardData`].
pub struct ShardDataView {
    pub program: Seq<u8>,
    pub checkpoint: Seq<u8>,
    pub public_values: Seq<u32>,
    pub first_index: nat,
}

impl View for ShardData {
    type V = ShardDataView;

    open spec fn view(&self) -> ShardDataView {
        ShardDataView {
            program: self.program.image@,
            checkpoint: self.checkpoint@,
            public_values: self.public_values@,
            first_index: self.first_index as nat,
        }
    }
}

impl ShardData {
    /// The place, among the shards of the run, of the shard at place `i` of
    /// this unit.
    pub fn global_index(&self, i: usize) -> (index: usize)
        requires
            self.first_index + i <= usize::MAX,
        ensures
            index == self.first_index + i,
    {
        self.first_index + i
    }
}

/// The place of the first item without a counterpart in two lists of
/// different length: the length of the shorter.
pub open spec fn first_unmatched(one: nat, other: nat) -> usize {
    if one < other {
        one as usize
    } else {
        other as usize
    }
}

/// Packages the checkpoints of a run into units of work, one for each
/// checkpoint and in checkpoint order. Each carries the program, its
/// checkpoint, the public values of the program and the place of its first
/// shard among the shards of the run, as the commit pass counted them.
///
/// A number of places other than the number of checkpoints is a
/// `ShardingViolation` at the first without a counterpart.
pub fn package_work_units(
    program: &Program,
    checkpoints: Vec<Vec<u8>>,
    public_values: &Vec<u32>,
    first_indices: &Vec<usize>,
) -> (out: Result<Vec<ShardData>, ProverError>)
    ensures
        first_indices@.len() != checkpoints@.len() ==> out == Err::<Vec<ShardData>, ProverError>(
            ProverError::ShardingViolation {
                position: first_unmatched(first_indices@.len(), checkpoints@.len()),
            },
        ),
        first_indices@.len() == checkpoints@.len() ==> (out matches Ok(units) && units@.len()
            == checkpoints@.len() && forall|i: int|
            0 <= i < units@.len() ==> (#[trigger] units@[i])@ == (ShardDataView {
                program: program.image@,
                checkpoint: checkpoints@[i]@,
                public_values: public_values@,
                first_index: first_indices@[i] as nat,
            })),
{
    if first_indices.len() != checkpoints.len() {
        let position: usize = if first_indices.len() < checkpoints.len() {
            first_indices.len()
        } else {
            checkpoints.len()
        };
        return Err(ProverError::ShardingViolation { position });
    }
    let mut units: Vec<ShardData> = Vec::new();
    let mut i: usize = 0;
    while i < checkpoints.len()
        invariant
            i <= checkpoints@.len(),
            first_indices@.len() == checkpoints@.len(),
            units@.len() == i,
            forall|j: int|
                0 <= j < i ==> (#[trigger] units@[j])@ == (ShardDataView {
                    program: program.image@,
                    checkpoint: checkpoints@[j]@,
                    public_values: public_values@,
                    first_index: first_indices@[j] as nat,
                }),
        decreases checkpoints@.len() - i,
    {
        units.push(
            ShardData {
                program: program.clone(),
                checkpoint: slice_to_vec(checkpoints[i].as_slice()),
                public_values: slice_to_vec(public_values.as_slice()),
                first_index: first_indices[i],
            },
        );
        i += 1;
    }
    Ok(units)
}

/// The shards of a unit of work, given the outcome of replaying its
/// checkpoint: the record, or nothing where the checkpoint could not be
/// decoded. The record gets the public values of the unit and is cut into
/// shards.
pub fn unit_shards(
    shard_data: &ShardData,
    replay: Option<ExecutionRecord>,
    config: &ShardingConfig,
    unit: usize,
) -> (out: Result<Vec<Shard>, ProverError>)
    ensures
        replay is None ==> out == Err::<Vec<Shard>, ProverError>(
            ProverError::CheckpointCorrupt { checkpoint: unit },
        ),
        replay matches Some(record) ==> (out matches Ok(shards) && shards_view(shards@)
            == shards_of(
            RecordView { events: record.events@, public_values: shard_data.public_values@ },
            config.capacity(),
        )),
{
    match replay {
        None => Err(ProverError::CheckpointCorrupt { checkpoint: unit }),
        Some(record) => {
            let ExecutionRecord { events, public_values: _ } = record;
            let attached = ExecutionRecord {
                events,
                public_values: slice_to_vec(shard_data.public_values.as_slice()),
            };
            Ok(shard(&attached, config))
        },
    }
}

/// What a worker sends back for a unit of work.
#[derive(Debug, PartialEq, Eq)]
pub struct WorkerReply {
    /// The commitment that the worker made for each shard of the unit, in
    /// shard order.
    pub recommitted: Vec<Commitment>,
    /// The serialized proofs of the shards of the unit.
    pub result: Vec<u8>,
}

/// The reply of a worker for a unit of work, given the shards of the unit,
/// the commitment made for each and the serialized proof of each, all in
/// shard order.
///
/// A number of commitments, or else of proofs, other than the number of
/// shards is a `ShardingViolation` at the first place without a counterpart.
pub fn process_shard(shards: &Vec<Shard>, recommitted: Vec<Commitment>, proofs: Vec<Vec<u8>>) -> (out:
    Result<WorkerReply, ProverError>)
    ensures
        recommitted@.len() != shards@.len() ==> out == Err::<WorkerReply, ProverError>(
            ProverError::ShardingViolation {
                position: first_unmatched(recommitted@.len(), shards@.len()),
            },
        ),
        recommitted@.len() == shards@.len() && proofs@.len() != shards@.len() ==> out == Err::<
            WorkerReply,
            ProverError,
        >(ProverError::ShardingViolation { position: first_unmatched(proofs@.len(), shards@.len()) }),
        recommitted@.len() == shards@.len() && proofs@.len() == shards@.len() ==> (out matches Ok(
            reply,
        ) && reply.recommitted@ == recommitted@ && reply.result@ == encode_frames(
            frames_view(proofs@),
        )),
{
    if recommitted.len() != shards.len() {
        let position: usize = if recommitted.len() < shards.len() {
            recommitted.len()
        } else {
            shards.len()
        };
        return Err(ProverError::ShardingViolation { position });
    }
    if proofs.len() != shards.len() {
        let position: usize = if proofs.len() < shards.len() {
            proofs.len()
        } else {
            shards.len()
        };
        return Err(ProverError::ShardingViolation { position });
    }
    let result = serialize_frames(&proofs);
    Ok(WorkerReply { recommitted, result })
}

/// The results received so far, by unit.
pub type Slots = Seq<Option<Seq<Seq<u8>>>>;

/// Whether `unit` is the first unit without a result.
pub open spec fn first_missing(slots: Slots, unit: int) -> bool {
    &&& 0 <= unit < slots.len()
    &&& slots[unit] is None
    &&& forall|j: int| 0 <= j < unit ==> (#[trigger] slots[j]) is Some
}

/// Every unit has its result.
pub open spec fn all_received(slots: Slots) -> bool {
    forall|i: int| 0 <= i < slots.len() ==> (#[trigger] slots[i]) is Some
}

/// The results of all units, in unit order.
pub open spec fn received(slots: Slots) -> Seq<Seq<Seq<u8>>> {
    Seq::new(slots.len(), |i: int| slots[i].unwrap())
}

/// The coordinator, as mathematics.
pub struct CoordinatorView {
    /// For each unit, the commitments of its shards as the commit pass
    /// observed them.
    pub expected: Seq<Seq<Seq<u32>>>,
    /// For each unit, its result where it was received.
    pub slots: Slots,
}

/// Why the result of a unit is not taken; nothing where it is taken.
///
/// A unit that does not exist, or that has its result already, is a
/// `ShardingViolation` at that unit. Commitments other than those of the
/// commit pass show that the replay of the worker differs: a
/// `ReplayNonDeterminism`. A number of proofs other than the number of
/// shards is a `ShardingViolation` at the first place without a counterpart.
pub open spec fn submit_error(
    coordinator: CoordinatorView,
    unit: usize,
    recommitted: Seq<Seq<u32>>,
    result: Seq<Seq<u8>>,
) -> Option<ProverError> {
    if unit >= coordinator.slots.len() || coordinator.slots[unit as int] is Some {
        Some(ProverError::ShardingViolation { position: unit })
    } else if recommitted != coordinator.expected[unit as int] {
        Some(ProverError::ReplayNonDeterminism { checkpoint: unit })
    } else if result.len() != coordinator.expected[unit as int].len() {
        Some(
            ProverError::ShardingViolation {
                position: first_unmatched(result.len(), coordinator.expected[unit as int].len()),
            },
        )
    } else {
        None
    }
}

/// Why the reply of a worker is not taken; nothing where it is taken.
///
/// No reply is a `WorkerUnavailable`. A reply whose bytes carry no list of
/// proofs is a `CheckpointCorrupt`. Else the proofs that the bytes carry are
/// submitted with the commitments of the reply.
pub open spec fn receive_error(
    coordinator: CoordinatorView,
    unit: usize,
    reply: Option<WorkerReply>,
) -> Option<ProverError> {
    match reply {
        None => Some(ProverError::WorkerUnavailable { unit }),
        Some(reply) => match decode_frames(reply.result@) {
            None => Some(ProverError::CheckpointCorrupt { checkpoint: unit }),
            Some(result) => submit_error(
                coordinator,
                unit,
                commitments_view(reply.recommitted@),
                result,
            ),
        },
    }
}

/// The contents of the commitments of the units of a run.
pub open spec fn expected_view(expected: Seq<Vec<Commitment>>) -> Seq<Seq<Seq<u32>>> {
    expected.map_values(|unit: Vec<Commitment>| commitments_view(unit@))
}

/// Collects the results of the units of work of a run.
#[derive(Debug, PartialEq, Eq)]
pub struct Coordinator {
    expected: Vec<Vec<Commitment>>,
    slots: Vec<Option<ShardProofResult>>,
}

impl View for Coordinator {
    type V = CoordinatorView;

    closed spec fn view(&self) -> CoordinatorView {
        CoordinatorView {
            expected: expected_view(self.expected@),
            slots: self.slots@.map_values(
                |slot: Option<ShardProofResult>|
                    match slot {
                        Some(result) => Some(result@),
                        None => None,
                    },
            ),
        }
    }
}

impl Coordinator {
    #[verifier::type_invariant]
    spec fn one_slot_per_unit(self) -> bool {
        self.expected@.len() == self.slots@.len()
    }

    /// A coordinator that waits for the results of the units of a run, one
    /// unit for each checkpoint, given the commitments that the commit pass
    /// observed for the shards of each.
    pub fn new(expected: Vec<Vec<Commitment>>) -> (coordinator: Coordinator)
        ensures
            coordinator@ == (CoordinatorView {
                expected: expected_view(expected@),
                slots: Seq::new(expected@.len(), |i: int| None::<Seq<Seq<u8>>>),
            }),
    {
        let units: usize = expected.len();
        let mut slots: Vec<Option<ShardProofResult>> = Vec::new();
        let mut i: usize = 0;
        while i < units
            invariant
                i <= units,
                slots@.len() == i,
                forall|j: int| 0 <= j < i ==> (#[trigger] slots@[j]) is None,
            decreases units - i,
        {
            slots.push(None);
            i += 1;
        }
        let coordinator = Coordinator { expected, slots };
        assert(coordinator@.slots =~= Seq::new(expected@.len(), |i: int| None::<Seq<Seq<u8>>>));
        coordinator
    }

    /// The first unit that has no result yet, if there is one: the unit to
    /// hand out, or to hand out again.
    pub fn next_unit(&self) -> (unit: Option<usize>)
        ensures
            unit is None <==> all_received(self@.slots),
            unit matches Some(u) ==> first_missing(self@.slots, u as int),
    {
        let mut i: usize = 0;
        while i < self.slots.len()
            invariant
                i <= self.slots@.len(),
                forall|j: int| 0 <= j < i ==> (#[trigger] self@.slots[j]) is Some,
            decreases self.slots@.len() - i,
        {
            if self.slots[i].is_none() {
                return Some(i);
            }
            assert(self@.slots[i as int] is Some);
            i += 1;
        }
        None
    }

    /// Takes the result of a unit, with the commitments that the worker made
    /// for its shards, and keeps it under the index of the unit. A result
    /// that is not taken is dropped, for the reason that [`submit_error`]
    /// gives, and leaves the coordinator as it was.
    pub fn submit(&mut self, unit: usize, recommitted: &Vec<Commitment>, result: ShardProofResult) -> (out:
        Result<(), ProverError>)
        ensures
            submit_error(old(self)@, unit, commitments_view(recommitted@), result@) matches Some(
                e,
            ) ==> (out == Err::<(), ProverError>(e) && final(self)@ == old(self)@),
            submit_error(old(self)@, unit, commitments_view(recommitted@), result@) is None ==> (
            out is Ok && final(self)@ == (CoordinatorView {
                slots: old(self)@.slots.update(unit as int, Some(result@)),
                ..old(self)@
            })),
    {
        proof {
            use_type_invariant(&*self);
        }
        if unit >= self.slots.len() {
            return Err(ProverError::ShardingViolation { position: unit });
        }
        if self.slots[unit].is_some() {
            return Err(ProverError::ShardingViolation { position: unit });
        }
        assert(self@.expected[unit as int] == commitments_view(self.expected@[unit as int]@));
        if !same_commitments(recommitted, &self.expected[unit]) {
            return Err(ProverError::ReplayNonDeterminism { checkpoint: unit });
        }
        let shards: usize = self.expected[unit].len();
        if result.shard_proofs.len() != shards {
            let position: usize = if result.shard_proofs.len() < shards {
                result.shard_proofs.len()
            } else {
                shards
            };
            return Err(ProverError::ShardingViolation { position });
        }
        let mut slot = Some(result);
        core::mem::swap(&mut self.slots[unit], &mut slot);
        assert(self@.slots =~= old(self)@.slots.update(unit as int, Some(result@)));
        Ok(())
    }

    /// Takes what came back for a unit: the reply of the worker, or nothing
    /// where the worker gave none. A reply that is not taken is dropped, for
    /// the reason that [`receive_error`] gives, and leaves the coordinator as
    /// it was.
    pub fn receive(&mut self, unit: usize, reply: Option<WorkerReply>) -> (out: Result<
        (),
        ProverError,
    >)
        ensures
            receive_error(old(self)@, unit, reply) matches Some(e) ==> (out == Err::<
                (),
                ProverError,
            >(e) && final(self)@ == old(self)@),
            receive_error(old(self)@, unit, reply) is None ==> (out is Ok && final(self)@ == (
                CoordinatorView {
                    slots: old(self)@.slots.update(
                        unit as int,
                        decode_frames(reply->Some_0.result@),
                    ),
                    ..old(self)@
                })),
    {
        match reply {
            None => Err(ProverError::WorkerUnavailable { unit }),
            Some(reply) => match ShardProofResult::deserialize(reply.result.as_slice()) {
                None => Err(ProverError::CheckpointCorrupt { checkpoint: unit }),
                Some(result) => self.submit(unit, &reply.recommitted, result),
            },
        }
    }

    /// Joins the results in unit order into the proof of the run. The first
    /// unit without a result is a `WorkerUnavailable`.
    pub fn assemble(self) -> (out: Result<MachineProof, ProverError>)
        ensures
            out is Ok <==> all_received(self@.slots),
            out matches Ok(proof) ==> proof@ == concat_proofs(received(self@.slots)),
            out matches Err(e) ==> (e matches ProverError::WorkerUnavailable { unit }
                && first_missing(self@.slots, unit as int)),
    {
        match self.next_unit() {
            Some(unit) => {
                return Err(ProverError::WorkerUnavailable { unit });
            },
            None => {},
        }
        let ghost slots = self@.slots;
        let Coordinator { expected: _, slots: mut filled } = self;
        let n: usize = filled.len();
        let mut parts: Vec<ShardProofResult> = Vec::new();
        let mut i: usize = 0;
        assert forall|j: int| 0 <= j < n implies ((#[trigger] filled@[j]) matches Some(result)
            && Some(result@) == slots[j]) by {
            assert(slots[j] is Some);
        }
        while i < n
            invariant
                i <= n,
                n == filled@.len(),
                n == slots.len(),
                all_received(slots),
                parts@.len() == i,
                forall|j: int|
                    i <= j < n ==> ((#[trigger] filled@[j]) matches Some(result) && Some(result@)
                        == slots[j]),
                forall|j: int| 0 <= j < i ==> Some((#[trigger] parts@[j])@) == slots[j],
            decreases n - i,
        {
            let mut slot: Option<ShardProofResult> = None;
            core::mem::swap(&mut filled[i], &mut slot);
            match slot {
                Some(result) => {
                    parts.push(result);
                },
                None => {},
            }
            i += 1;
        }
        let proof = MachineProof::assemble(parts);
        proof {
            assert(crate::machine::results_view(parts@) =~= received(slots));
        }
        Ok(proof)
    }
}

/// Arrival order does not matter: the results of two different units can be
/// taken in either order.
pub proof fn lemma_submit_commutes(
    slots: Slots,
    i: int,
    a: Seq<Seq<u8>>,
    j: int,
    b: Seq<Seq<u8>>,
)
    requires
        0 <= i < slots.len(),
        0 <= j < slots.len(),
        i != j,
    ensures
        slots.update(i, Some(a)).update(j, Some(b)) == slots.update(j, Some(b)).update(i, Some(a)),
{
}

} // verus!
