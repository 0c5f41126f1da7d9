//! The checkpoint and replay controller: the three passes of a proving run.
//!
//! A run executes and takes checkpoints, then replays every checkpoint to
//! commit its shards into one transcript, then replays them again to prove
//! the shards against copies of that transcript. Each pass is a value of its
//! own type. A step consumes the pass and returns what comes next, so a shard
//! can be proved only with a transcript that has observed the commitments of
//! every shard of the run.
//!
//! The controller decides; it does not execute, commit or prove. The caller
//! does that work and hands the outcome to the next step.

use crate::error::ProverError;
use crate::shard_proof::ShardProofData;
use crate::shard_proof::concat_proofs;
use crate::shard_proof::proofs_view;
use crate::sharding::ExecutionRecord;
use crate::sharding::RecordView;
use crate::sharding::Shard;
use crate::sharding::ShardView;
use crate::sharding::ShardingConfig;
use crate::sharding::shard;
use crate::sharding::shards_of;
use crate::sharding::shards_view;
use crate::transcript::Commitment;
use crate::transcript::Transcript;
use crate::transcript::VerifyingKey;
use crate::transcript::commitments_view;
use crate::transcript::lemma_observations_append;
use crate::transcript::observations;
use crate::transcript::observe_shards;
use crate::transcript::public_values_of;
use vstd::prelude::*;
use vstd::slice::slice_to_vec;

verus! {

/// How a run is carried out.
#[derive(Clone, Copy, Debug, PartialEq, Eq, Structural)]
pub enum ProvingPath {
    /// Run to completion, then shard, commit and prove in one go.
    Direct,
    /// Take checkpoints and go through the three passes.
    Checkpointed,
}

/// Chooses the path from the configured batch size: a size of zero says that
/// the whole execution is one batch.
pub fn select_path(shard_batch_size: usize) -> (path: ProvingPath)
    ensures
        path == if shard_batch_size > 0 {
            ProvingPath::Checkpointed
        } else {
            ProvingPath::Direct
        },
{
    if shard_batch_size > 0 {
        ProvingPath::Checkpointed
    } else {
        ProvingPath::Direct
    }
}

/// The execute pass: counts the checkpoints as the engine hands them over.
#[derive(Debug, PartialEq, Eq)]
pub struct ExecutePass {
    taken: usize,
}

/// The end of an execute pass: how many checkpoints it took, at least one.
#[derive(Debug, PartialEq, Eq)]
pub struct Halted {
    checkpoints: usize,
}

/// What follows a checkpoint.
#[derive(Debug, PartialEq, Eq)]
pub enum ExecuteStep {
    /// The program goes on: ask the engine for the next checkpoint.
    Continue(ExecutePass),
    /// The program has halted.
    Done(Halted),
}

impl Halted {
    #[verifier::type_invariant]
    spec fn at_least_one(self) -> bool {
        self.checkpoints >= 1
    }

    /// The number of checkpoints of the run, as a number.
    pub closed spec fn count(self) -> nat {
        self.checkpoints as nat
    }

    /// The number of checkpoints of the run.
    pub fn checkpoints(&self) -> (n: usize)
        ensures
            n == self.count(),
            n >= 1,
    {
        proof {
            use_type_invariant(self);
        }
        self.checkpoints
    }
}

impl ExecutePass {
    /// The number of checkpoints taken so far, as a number.
    pub closed spec fn taken(self) -> nat {
        self.taken as nat
    }

    /// A pass that has taken no checkpoint yet.
    pub fn new() -> (pass: ExecutePass)
        ensures
            pass.taken() == 0,
    {
        ExecutePass { taken: 0 }
    }

    /// The number of checkpoints taken so far.
    pub fn checkpoints(&self) -> (n: usize)
        ensures
            n == self.taken(),
    {
        self.taken
    }

    /// Records the checkpoint that the engine just handed over. The pass ends
    /// with the checkpoint at which the engine reports that the program has
    /// halted.
    pub fn checkpoint_taken(self, done: bool) -> (step: ExecuteStep)
        requires
            self.taken() < usize::MAX,
        ensures
            done ==> (step matches ExecuteStep::Done(halted) && halted.count() == self.taken()
                + 1),
            !done ==> (step matches ExecuteStep::Continue(pass) && pass.taken() == self.taken()
                + 1),
    {
        let taken: usize = self.taken + 1;
        if done {
            ExecuteStep::Done(Halted { checkpoints: taken })
        } else {
            ExecuteStep::Continue(ExecutePass { taken })
        }
    }
}

/// The bookkeeping of a run, as mathematics.
pub struct SessionView {
    /// The capacity of a shard.
    pub capacity: nat,
    /// How many public values of a shard enter the transcript.
    pub num_pv_elts: nat,
    /// The public values of the whole program.
    pub public_values: Seq<u32>,
    /// The number of checkpoints of the run.
    pub total: nat,
    /// Everything observed so far.
    pub transcript: Seq<u32>,
    /// The commitments of the shards committed so far, in execution order.
    pub commitments: Seq<Seq<u32>>,
    /// For each checkpoint committed so far, and for the next one, the number
    /// of shards before it.
    pub offsets: Seq<nat>,
}

impl SessionView {
    /// The number of checkpoints committed so far.
    pub open spec fn committed(self) -> nat {
        (self.offsets.len() - 1) as nat
    }

    /// The commitments of the shards of checkpoint `k`.
    pub open spec fn commitments_of(self, k: int) -> Seq<Seq<u32>> {
        self.commitments.subrange(self.offsets[k] as int, self.offsets[k + 1] as int)
    }

    /// The places, among the shards of the run, of the shards of checkpoint
    /// `k`: the shard at place `i` of the checkpoint stands at place
    /// `offsets[k] + i` of the run.
    pub open spec fn indices_of(self, k: int) -> Seq<nat> {
        Seq::new(
            (self.offsets[k + 1] - self.offsets[k]) as nat,
            |i: int| (self.offsets[k] + i) as nat,
        )
    }

    /// The offsets count the shards: they start at zero, never fall, and end
    /// at the number of shards committed so far.
    pub open spec fn well_formed(self) -> bool {
        &&& self.offsets.len() >= 1
        &&& self.offsets[0] == 0
        &&& forall|i: int, j: int|
            0 <= i <= j < self.offsets.len() ==> self.offsets[i] <= self.offsets[j]
        &&& self.offsets[self.offsets.len() - 1] == self.commitments.len()
    }
}

/// The bookkeeping at the start of a commit pass: the transcript has observed
/// the verifying key and nothing else.
pub open spec fn session_start(
    vk: VerifyingKey,
    public_values: Seq<u32>,
    num_pv_elts: nat,
    capacity: nat,
    total: nat,
) -> SessionView {
    SessionView {
        capacity,
        num_pv_elts,
        public_values,
        total,
        transcript: vk.observation(),
        commitments: Seq::empty(),
        offsets: seq![0nat],
    }
}

/// The shards of a replayed record: the record gets the public values of the
/// program and is cut at the capacity of the run.
pub open spec fn replay_shards(session: SessionView, record: RecordView) -> Seq<ShardView> {
    shards_of(
        RecordView { events: record.events, public_values: session.public_values },
        session.capacity,
    )
}

/// The bookkeeping after the shards of one more checkpoint were committed:
/// the transcript has observed them in shard order.
pub open spec fn session_commit(
    session: SessionView,
    shards: Seq<ShardView>,
    commitments: Seq<Seq<u32>>,
) -> SessionView {
    SessionView {
        transcript: session.transcript + observations(
            commitments,
            public_values_of(shards),
            session.num_pv_elts,
        ),
        commitments: session.commitments + commitments,
        offsets: session.offsets.push(session.commitments.len() + commitments.len()),
        ..session
    }
}

/// The numbers of a sequence of machine integers.
pub open spec fn as_nats(values: Seq<usize>) -> Seq<nat> {
    values.map_values(|v: usize| v as nat)
}

/// The bookkeeping of a run.
#[derive(Debug, PartialEq, Eq)]
pub struct Session {
    config: ShardingConfig,
    num_pv_elts: usize,
    public_values: Vec<u32>,
    total: usize,
    transcript: Transcript,
    commitments: Vec<Commitment>,
    offsets: Vec<usize>,
}

impl View for Session {
    type V = SessionView;

    closed spec fn view(&self) -> SessionView {
        SessionView {
            capacity: self.config.capacity(),
            num_pv_elts: self.num_pv_elts as nat,
            public_values: self.public_values@,
            total: self.total as nat,
            transcript: self.transcript@,
            commitments: commitments_view(self.commitments@),
            offsets: as_nats(self.offsets@),
        }
    }
}

impl Session {
    #[verifier::type_invariant]
    spec fn consistent(self) -> bool {
        &&& self.num_pv_elts <= self.public_values@.len()
        &&& 1 <= self.offsets@.len() <= self.total + 1
        &&& self.offsets@[0] == 0
        &&& forall|i: int, j: int|
            0 <= i <= j < self.offsets@.len() ==> self.offsets@[i] <= self.offsets@[j]
        &&& self.offsets@[self.offsets@.len() - 1] == self.commitments@.len()
    }

    /// The shards of a replayed record.
    fn shards_of_replay(&self, record: ExecutionRecord) -> (shards: Vec<Shard>)
        ensures
            shards_view(shards@) == replay_shards(self@, record@),
            forall|i: int|
                0 <= i < shards@.len() ==> (#[trigger] shards@[i]).public_values@
                    == self@.public_values,
    {
        let ExecutionRecord { events, public_values: _ } = record;
        let attached = ExecutionRecord {
            events,
            public_values: slice_to_vec(self.public_values.as_slice()),
        };
        let shards = shard(&attached, &self.config);
        proof {
            assert forall|i: int| 0 <= i < shards@.len() implies (#[trigger] shards@[i]).public_values@
                == self@.public_values by {
                assert(shards_view(shards@)[i] == shards@[i]@);
            }
        }
        shards
    }
}

/// The commit pass between two checkpoints: the next checkpoint is to be
/// replayed.
#[derive(Debug, PartialEq, Eq)]
pub struct CommitPass {
    session: Session,
}

/// The commit pass inside a checkpoint: its shards are to be committed.
#[derive(Debug, PartialEq, Eq)]
pub struct PendingCommit {
    session: Session,
    shards: Vec<Shard>,
}

/// What follows the commitment of a checkpoint.
#[derive(Debug, PartialEq, Eq)]
pub enum CommitStep {
    /// Checkpoints are left: replay the next one.
    Continue(CommitPass),
    /// Every shard of the run is committed and observed: prove.
    Complete(ProvePass),
}

impl View for CommitPass {
    type V = SessionView;

    closed spec fn view(&self) -> SessionView {
        self.session@
    }
}

impl CommitPass {
    #[verifier::type_invariant]
    spec fn checkpoints_left(self) -> bool {
        self.session.offsets@.len() <= self.session.total
    }

    /// Starts the commit pass of a run of `halted.count()` checkpoints: the
    /// canonical transcript observes the verifying key.
    pub fn start(
        halted: Halted,
        vk: &VerifyingKey,
        public_values: Vec<u32>,
        num_pv_elts: usize,
        config: ShardingConfig,
    ) -> (pass: CommitPass)
        requires
            num_pv_elts <= public_values@.len(),
        ensures
            pass@ == session_start(
                *vk,
                public_values@,
                num_pv_elts as nat,
                config.capacity(),
                halted.count(),
            ),
    {
        let total = halted.checkpoints();
        let mut transcript = Transcript::new();
        vk.observe_into(&mut transcript);
        let mut offsets: Vec<usize> = Vec::new();
        offsets.push(0);
        let session = Session {
            config,
            num_pv_elts,
            public_values,
            total,
            transcript,
            commitments: Vec::new(),
            offsets,
        };
        proof {
            assert(session@.commitments =~= Seq::<Seq<u32>>::empty());
            assert(session@.offsets =~= seq![0nat]);
        }
        CommitPass { session }
    }

    /// The checkpoint to replay next.
    pub fn next_checkpoint(&self) -> (k: usize)
        ensures
            k == self@.committed(),
            k < self@.total,
    {
        proof {
            use_type_invariant(self);
            use_type_invariant(&self.session);
        }
        self.session.offsets.len() - 1
    }

    /// Takes the outcome of replaying the next checkpoint: the record, or
    /// nothing where the checkpoint could not be decoded. The record gets the
    /// public values of the program and is cut into shards.
    pub fn replayed(self, replay: Option<ExecutionRecord>) -> (out: Result<
        PendingCommit,
        ProverError,
    >)
        ensures
            replay is None ==> out == Err::<PendingCommit, ProverError>(
                ProverError::CheckpointCorrupt { checkpoint: self@.committed() as usize },
            ),
            replay matches Some(record) ==> (out matches Ok(pending) && pending@ == (
                self@,
                replay_shards(self@, record@),
            )),
    {
        proof {
            use_type_invariant(&self);
            use_type_invariant(&self.session);
        }
        match replay {
            None => Err(
                ProverError::CheckpointCorrupt { checkpoint: self.session.offsets.len() - 1 },
            ),
            Some(record) => {
                let shards = self.session.shards_of_replay(record);
                Ok(PendingCommit { session: self.session, shards })
            },
        }
    }
}

impl View for PendingCommit {
    type V = (SessionView, Seq<ShardView>);

    closed spec fn view(&self) -> (SessionView, Seq<ShardView>) {
        (self.session@, shards_view(self.shards@))
    }
}

impl PendingCommit {
    #[verifier::type_invariant]
    spec fn checkpoints_left(self) -> bool {
        &&& self.session.offsets@.len() <= self.session.total
        &&& forall|i: int|
            0 <= i < self.shards@.len() ==> (#[trigger] self.shards@[i]).public_values@
                == self.session.public_values@
    }

    /// The shards to commit, in order.
    pub fn shards(&self) -> (shards: &Vec<Shard>)
        ensures
            shards_view(shards@) == self@.1,
    {
        &self.shards
    }

    /// The place of the first of these shards among the shards of the run:
    /// the number of shards committed before them.
    pub fn first_index(&self) -> (index: usize)
        ensures
            index == self@.0.commitments.len(),
            index == self@.0.offsets[self@.0.committed() as int],
    {
        proof {
            use_type_invariant(self);
            use_type_invariant(&self.session);
        }
        self.session.commitments.len()
    }

    /// The place, among the shards of the run, of the shard at place `i` of
    /// this checkpoint.
    pub fn global_index(&self, i: usize) -> (index: usize)
        requires
            i < self@.1.len(),
            self@.0.commitments.len() + i <= usize::MAX,
        ensures
            index == self@.0.commitments.len() + i,
    {
        self.session.commitments.len() + i
    }

    /// Takes the commitments of the shards, one for each shard and in shard
    /// order, and observes each commitment with the public values of its
    /// shard into the canonical transcript. After the last checkpoint of the
    /// run the transcript is complete and the prove pass begins.
    ///
    /// A number of commitments other than the number of shards is a
    /// `ShardingViolation` at the first place without a counterpart.
    pub fn committed(self, commitments: Vec<Commitment>) -> (out: Result<CommitStep, ProverError>)
        ensures
            commitments@.len() != self@.1.len() ==> out == Err::<CommitStep, ProverError>(
                ProverError::ShardingViolation {
                    position: if commitments@.len() < self@.1.len() {
                        commitments@.len() as usize
                    } else {
                        self@.1.len() as usize
                    },
                },
            ),
            commitments@.len() == self@.1.len() ==> out is Ok,
            out matches Ok(CommitStep::Continue(pass)) ==> {
                &&& self@.0.committed() + 1 < self@.0.total
                &&& pass@ == session_commit(self@.0, self@.1, commitments_view(commitments@))
            },
            out matches Ok(CommitStep::Complete(pass)) ==> {
                &&& self@.0.committed() + 1 == self@.0.total
                &&& pass@ == prove_start(
                    session_commit(self@.0, self@.1, commitments_view(commitments@)),
                    if self@.0.total == 1 {
                        Some(self@.1)
                    } else {
                        None
                    },
                )
            },
    {
        proof {
            use_type_invariant(&self);
            use_type_invariant(&self.session);
        }
        let PendingCommit { session, shards } = self;
        if commitments.len() != shards.len() {
            let position: usize = if commitments.len() < shards.len() {
                commitments.len()
            } else {
                shards.len()
            };
            return Err(ProverError::ShardingViolation { position });
        }
        let ghost before = session@;
        let Session {
            config,
            num_pv_elts,
            public_values,
            total,
            mut transcript,
            commitments: mut all,
            mut offsets,
        } = session;
        observe_shards(&mut transcript, &commitments, &shards, num_pv_elts);
        let mut i: usize = 0;
        while i < commitments.len()
            invariant
                i <= commitments@.len(),
                all@ == session.commitments@ + commitments@.take(i as int),
            decreases commitments@.len() - i,
        {
            all.push(commitments[i]);
            i += 1;
        }
        offsets.push(all.len());
        let next = Session {
            config,
            num_pv_elts,
            public_values,
            total,
            transcript,
            commitments: all,
            offsets,
        };
        proof {
            let after = session_commit(before, shards_view(shards@), commitments_view(commitments@));
            assert(next@.commitments =~= after.commitments);
            assert(next@.offsets =~= after.offsets);
        }
        if next.offsets.len() - 1 == next.total {
            let cached = if next.total == 1 {
                Some(shards)
            } else {
                None
            };
            let pass = ProvePass { session: next, cursor: 0, end: total, proofs: Vec::new(), cached };
            assert(pass@.proofs =~= Seq::<Seq<u8>>::empty());
            Ok(CommitStep::Complete(pass))
        } else {
            Ok(CommitStep::Continue(CommitPass { session: next }))
        }
    }
}

/// The prove pass, as mathematics.
pub struct ProveView {
    /// The bookkeeping of the run. Its transcript is complete.
    pub session: SessionView,
    /// The checkpoint to prove next.
    pub cursor: nat,
    /// The checkpoint at which the pass stops.
    pub end: nat,
    /// The proofs made so far, in shard order.
    pub proofs: Seq<Seq<u8>>,
    /// The shards of the only checkpoint, where they were kept.
    pub cached: Option<Seq<ShardView>>,
}

/// The prove pass before its first checkpoint.
pub open spec fn prove_start(session: SessionView, cached: Option<Seq<ShardView>>) -> ProveView {
    ProveView { session, cursor: 0, end: session.total, proofs: Seq::empty(), cached }
}

/// The prove pass between two checkpoints: the next checkpoint is to be
/// replayed, or its shards are at hand.
#[derive(Debug, PartialEq, Eq)]
pub struct ProvePass {
    session: Session,
    cursor: usize,
    end: usize,
    proofs: Vec<ShardProofData>,
    cached: Option<Vec<Shard>>,
}

impl View for ProvePass {
    type V = ProveView;

    closed spec fn view(&self) -> ProveView {
        ProveView {
            session: self.session@,
            cursor: self.cursor as nat,
            end: self.end as nat,
            proofs: proofs_view(self.proofs@),
            cached: match self.cached {
                Some(shards) => Some(shards_view(shards@)),
                None => None,
            },
        }
    }
}

/// The prove pass restricted to the one checkpoint `k`.
pub open spec fn prove_only(pass: ProveView, k: nat) -> ProveView {
    ProveView { cursor: k, end: k + 1, ..pass }
}

/// The prove pass after the shards of one more checkpoint were proved.
pub open spec fn prove_checkpoint(pass: ProveView, proofs: Seq<Seq<u8>>) -> ProveView {
    ProveView { cursor: pass.cursor + 1, proofs: pass.proofs + proofs, ..pass }
}

/// The prove pass inside a checkpoint: its shards are to be proved.
#[derive(Debug, PartialEq, Eq)]
pub struct PendingProof {
    pass: ProvePass,
    shards: Vec<Shard>,
}

/// How the prove pass gets the shards of its next checkpoint.
#[derive(Debug, PartialEq, Eq)]
pub enum ProveAction {
    /// The shards were kept from the commit pass: prove them.
    UseCached(PendingProof),
    /// Replay the next checkpoint.
    Replay(ProvePass),
}

/// What follows the proofs of a checkpoint.
#[derive(Debug, PartialEq, Eq)]
pub enum ProveStep {
    /// Checkpoints are left.
    Continue(ProvePass),
    /// The pass is over: the proofs of its shards, in shard order.
    Complete(Vec<ShardProofData>),
}

impl ProvePass {
    #[verifier::type_invariant]
    spec fn in_range(self) -> bool {
        &&& self.session.offsets@.len() == self.session.total + 1
        &&& self.cursor < self.end <= self.session.total
        &&& self.cached matches Some(shards) ==> {
            &&& self.session.total == 1
            &&& shards@.len() == self.session.offsets@[1]
        }
    }

    /// A copy of the canonical transcript: bound to the commitments of every
    /// shard of the run, and independent of every other copy.
    pub fn challenger(&self) -> (copy: Transcript)
        ensures
            copy@ == self@.session.transcript,
    {
        self.session.transcript.clone()
    }

    /// The checkpoint to prove next.
    pub fn next_checkpoint(&self) -> (k: usize)
        ensures
            k == self@.cursor,
            k < self@.end <= self@.session.total,
    {
        proof {
            use_type_invariant(self);
        }
        self.cursor
    }

    /// For each checkpoint of the run, the place of its first shard among
    /// the shards of the run.
    pub fn first_indices(&self) -> (indices: Vec<usize>)
        ensures
            self@.session.well_formed(),
            indices@.len() == self@.session.total,
            forall|k: int|
                0 <= k < indices@.len() ==> (#[trigger] indices@[k]) == self@.session.offsets[k],
    {
        proof {
            use_type_invariant(self);
            use_type_invariant(&self.session);
        }
        let mut indices: Vec<usize> = Vec::new();
        let mut k: usize = 0;
        while k < self.session.total
            invariant
                k <= self.session.total,
                self.session.offsets@.len() == self.session.total + 1,
                indices@.len() == k,
                forall|j: int| 0 <= j < k ==> (#[trigger] indices@[j]) == self.session.offsets@[j],
            decreases self.session.total - k,
        {
            indices.push(self.session.offsets[k]);
            k += 1;
        }
        indices
    }

    /// For each checkpoint of the run, the number of its shards.
    pub fn shard_counts(&self) -> (counts: Vec<usize>)
        ensures
            counts@.len() == self@.session.total,
            forall|k: int|
                0 <= k < counts@.len() ==> (#[trigger] counts@[k]) == self@.session.offsets[k + 1]
                    - self@.session.offsets[k],
    {
        proof {
            use_type_invariant(self);
            use_type_invariant(&self.session);
        }
        let mut counts: Vec<usize> = Vec::new();
        let mut k: usize = 0;
        while k < self.session.total
            invariant
                k <= self.session.total,
                self.session.offsets@.len() == self.session.total + 1,
                forall|i: int, j: int|
                    0 <= i <= j < self.session.offsets@.len() ==> self.session.offsets@[i]
                        <= self.session.offsets@[j],
                counts@.len() == k,
                forall|j: int|
                    0 <= j < k ==> (#[trigger] counts@[j]) == self.session.offsets@[j + 1]
                        - self.session.offsets@[j],
            decreases self.session.total - k,
        {
            counts.push(self.session.offsets[k + 1] - self.session.offsets[k]);
            k += 1;
        }
        counts
    }

    /// For each checkpoint of the run, the commitments of its shards, as the
    /// commit pass observed them.
    pub fn expected_commitments(&self) -> (expected: Vec<Vec<Commitment>>)
        ensures
            expected@.len() == self@.session.total,
            forall|k: int|
                0 <= k < expected@.len() ==> commitments_view((#[trigger] expected@[k])@)
                    == self@.session.commitments_of(k),
    {
        proof {
            use_type_invariant(self);
            use_type_invariant(&self.session);
        }
        let all = &self.session.commitments;
        let offsets = &self.session.offsets;
        let total: usize = self.session.total;
        let mut expected: Vec<Vec<Commitment>> = Vec::new();
        let mut k: usize = 0;
        while k < total
            invariant
                k <= total,
                total == self.session.total,
                all == &self.session.commitments,
                offsets == &self.session.offsets,
                offsets@.len() == total + 1,
                forall|i: int, j: int| 0 <= i <= j < offsets@.len() ==> offsets@[i] <= offsets@[j],
                offsets@[offsets@.len() - 1] == all@.len(),
                expected@.len() == k,
                forall|j: int|
                    0 <= j < k ==> commitments_view((#[trigger] expected@[j])@)
                        == self@.session.commitments_of(j),
            decreases total - k,
        {
            let from: usize = offsets[k];
            let to: usize = offsets[k + 1];
            let mut part: Vec<Commitment> = Vec::new();
            let mut i: usize = from;
            while i < to
                invariant
                    from <= i <= to,
                    to <= all@.len(),
                    part@ == all@.subrange(from as int, i as int),
                decreases to - i,
            {
                part.push(all[i]);
                i += 1;
            }
            assert(commitments_view(part@) =~= self@.session.commitments_of(k as int));
            expected.push(part);
            k += 1;
        }
        expected
    }

    /// Restricts the pass to one checkpoint of those that are left; none for
    /// a checkpoint that is not among them. The transcript stays the one of
    /// the whole run.
    pub fn only(self, checkpoint: usize) -> (out: Option<ProvePass>)
        ensures
            out is Some <==> self@.cursor <= checkpoint < self@.end,
            out matches Some(pass) ==> pass@ == prove_only(self@, checkpoint as nat),
    {
        proof {
            use_type_invariant(&self);
        }
        if self.cursor <= checkpoint && checkpoint < self.end {
            let ProvePass { session, cursor: _, end: _, proofs, cached } = self;
            Some(ProvePass { session, cursor: checkpoint, end: checkpoint + 1, proofs, cached })
        } else {
            None
        }
    }

    /// Says where the shards of the next checkpoint come from: from the
    /// commit pass, where the run has one checkpoint and its shards were
    /// kept, else from a replay.
    pub fn next(self) -> (action: ProveAction)
        ensures
            self@.cached matches Some(shards) ==> (action matches ProveAction::UseCached(pending)
                && pending@ == (ProveView { cached: None, ..self@ }, shards)),
            self@.cached is None ==> (action matches ProveAction::Replay(pass) && pass@ == self@),
    {
        proof {
            use_type_invariant(&self);
            use_type_invariant(&self.session);
        }
        let ProvePass { session, cursor, end, proofs, cached } = self;
        match cached {
            Some(shards) => {
                let pass = ProvePass { session, cursor, end, proofs, cached: None };
                ProveAction::UseCached(PendingProof { pass, shards })
            },
            None => ProveAction::Replay(ProvePass { session, cursor, end, proofs, cached: None }),
        }
    }

    /// Takes the outcome of replaying the next checkpoint: the record, or
    /// nothing where the checkpoint could not be decoded. The record gets the
    /// public values of the program and is cut into shards.
    ///
    /// A record that gives another number of shards than it gave in the
    /// commit pass shows that the two replays differ.
    pub fn replayed(self, replay: Option<ExecutionRecord>) -> (out: Result<
        PendingProof,
        ProverError,
    >)
        ensures
            replay is None ==> out == Err::<PendingProof, ProverError>(
                ProverError::CheckpointCorrupt { checkpoint: self@.cursor as usize },
            ),
            replay matches Some(record) ==> (replay_shards(self@.session, record@).len()
                != self@.session.commitments_of(self@.cursor as int).len() ==> out == Err::<
                PendingProof,
                ProverError,
            >(ProverError::ReplayNonDeterminism { checkpoint: self@.cursor as usize })),
            replay matches Some(record) ==> (replay_shards(self@.session, record@).len()
                == self@.session.commitments_of(self@.cursor as int).len() ==> (out matches Ok(
                pending,
            ) && pending@ == (self@, replay_shards(self@.session, record@)))),
    {
        proof {
            use_type_invariant(&self);
            use_type_invariant(&self.session);
        }
        match replay {
            None => Err(ProverError::CheckpointCorrupt { checkpoint: self.cursor }),
            Some(record) => {
                let shards = self.session.shards_of_replay(record);
                let expected: usize = self.session.offsets[self.cursor + 1]
                    - self.session.offsets[self.cursor];
                if shards.len() != expected {
                    Err(ProverError::ReplayNonDeterminism { checkpoint: self.cursor })
                } else {
                    Ok(PendingProof { pass: self, shards })
                }
            },
        }
    }
}

impl View for PendingProof {
    type V = (ProveView, Seq<ShardView>);

    closed spec fn view(&self) -> (ProveView, Seq<ShardView>) {
        (self.pass@, shards_view(self.shards@))
    }
}

impl PendingProof {
    #[verifier::type_invariant]
    spec fn as_committed(self) -> bool {
        self.shards@.len() == self.pass.session.offsets@[self.pass.cursor + 1]
            - self.pass.session.offsets@[self.pass.cursor as int]
    }

    /// The shards to prove, in order.
    pub fn shards(&self) -> (shards: &Vec<Shard>)
        ensures
            shards_view(shards@) == self@.1,
    {
        &self.shards
    }

    /// The place of the first of these shards among the shards of the run.
    pub fn first_index(&self) -> (index: usize)
        ensures
            index == self@.0.session.offsets[self@.0.cursor as int],
    {
        proof {
            use_type_invariant(self);
            use_type_invariant(&self.pass);
            use_type_invariant(&self.pass.session);
        }
        self.pass.session.offsets[self.pass.cursor]
    }

    /// The place, among the shards of the run, of the shard at place `i` of
    /// this checkpoint.
    pub fn global_index(&self, i: usize) -> (index: usize)
        requires
            i < self@.1.len(),
        ensures
            index == self@.0.session.offsets[self@.0.cursor as int] + i,
            index == self@.0.session.indices_of(self@.0.cursor as int)[i as int],
            index < self@.0.session.commitments.len(),
    {
        proof {
            use_type_invariant(self);
            use_type_invariant(&self.pass);
            use_type_invariant(&self.pass.session);
        }
        self.pass.session.offsets[self.pass.cursor] + i
    }

    /// A copy of the canonical transcript for the proof of one shard.
    pub fn challenger(&self) -> (copy: Transcript)
        ensures
            copy@ == self@.0.session.transcript,
    {
        self.pass.challenger()
    }

    /// Whether the commitments made in this pass are those of the commit
    /// pass.
    fn same_commitments(&self, recommitted: &Vec<Commitment>) -> (same: bool)
        ensures
            same <==> commitments_view(recommitted@) == self@.0.session.commitments_of(
                self@.0.cursor as int,
            ),
    {
        proof {
            use_type_invariant(self);
            use_type_invariant(&self.pass);
            use_type_invariant(&self.pass.session);
        }
        let all = &self.pass.session.commitments;
        let base: usize = self.pass.session.offsets[self.pass.cursor];
        let n: usize = self.shards.len();
        let len: usize = all.len();
        let ghost expected = self@.0.session.commitments_of(self@.0.cursor as int);
        assert(expected.len() == n);
        if recommitted.len() != n {
            return false;
        }
        let mut i: usize = 0;
        while i < n
            invariant
                i <= n,
                n == recommitted@.len(),
                n == expected.len(),
                len == all@.len(),
                base + n <= len,
                expected == self@.0.session.commitments_of(self@.0.cursor as int),
                expected == commitments_view(all@).subrange(base as int, base + n),
                forall|j: int| 0 <= j < i ==> (#[trigger] recommitted@[j])@ == expected[j],
            decreases n - i,
        {
            if !recommitted[i].same_as(&all[base + i]) {
                assert(commitments_view(recommitted@)[i as int] != expected[i as int]);
                return false;
            }
            i += 1;
        }
        assert(commitments_view(recommitted@) =~= expected);
        true
    }

    /// Takes what proving the shards gave: the commitment made anew for each
    /// shard, and the proof of each shard, both in shard order. The proofs
    /// join those of the earlier checkpoints.
    ///
    /// Commitments other than those of the commit pass are a
    /// `ReplayNonDeterminism`. A number of proofs other than the number of
    /// shards is a `ShardingViolation` at the first place without a
    /// counterpart.
    pub fn proved(self, recommitted: &Vec<Commitment>, proofs: Vec<ShardProofData>) -> (out: Result<
        ProveStep,
        ProverError,
    >)
        ensures
            commitments_view(recommitted@) != self@.0.session.commitments_of(
                self@.0.cursor as int,
            ) ==> out == Err::<ProveStep, ProverError>(
                ProverError::ReplayNonDeterminism { checkpoint: self@.0.cursor as usize },
            ),
            commitments_view(recommitted@) == self@.0.session.commitments_of(
                self@.0.cursor as int,
            ) && proofs@.len() != self@.1.len() ==> out == Err::<ProveStep, ProverError>(
                ProverError::ShardingViolation {
                    position: if proofs@.len() < self@.1.len() {
                        proofs@.len() as usize
                    } else {
                        self@.1.len() as usize
                    },
                },
            ),
            commitments_view(recommitted@) == self@.0.session.commitments_of(
                self@.0.cursor as int,
            ) && proofs@.len() == self@.1.len() ==> out is Ok,
            out matches Ok(ProveStep::Continue(pass)) ==> {
                &&& self@.0.cursor + 1 < self@.0.end
                &&& pass@ == prove_checkpoint(self@.0, proofs_view(proofs@))
            },
            out matches Ok(ProveStep::Complete(all)) ==> {
                &&& self@.0.cursor + 1 == self@.0.end
                &&& proofs_view(all@) == self@.0.proofs + proofs_view(proofs@)
            },
    {
        proof {
            use_type_invariant(&self);
            use_type_invariant(&self.pass);
            use_type_invariant(&self.pass.session);
        }
        if !self.same_commitments(recommitted) {
            return Err(ProverError::ReplayNonDeterminism { checkpoint: self.pass.cursor });
        }
        if proofs.len() != self.shards.len() {
            let position: usize = if proofs.len() < self.shards.len() {
                proofs.len()
            } else {
                self.shards.len()
            };
            return Err(ProverError::ShardingViolation { position });
        }
        let ghost before = self@.0;
        let PendingProof { pass, shards: _ } = self;
        let ProvePass { session, cursor, end, proofs: mut all, cached } = pass;
        let mut proofs = proofs;
        let ghost added = proofs_view(proofs@);
        all.append(&mut proofs);
        assert(proofs_view(all@) =~= before.proofs + added);
        if cursor + 1 == end {
            Ok(ProveStep::Complete(all))
        } else {
            Ok(ProveStep::Continue(ProvePass { session, cursor: cursor + 1, end, proofs: all, cached: None }))
        }
    }
}

/// One checkpoint as the commit pass takes it: its shards and their
/// commitments.
pub struct Batch {
    pub shards: Seq<ShardView>,
    pub commitments: Seq<Seq<u32>>,
}

/// The bookkeeping after a sequence of checkpoints was committed, first to
/// last.
pub open spec fn commit_all(session: SessionView, batches: Seq<Batch>) -> SessionView
    decreases batches.len(),
{
    if batches.len() == 0 {
        session
    } else {
        session_commit(
            commit_all(session, batches.drop_last()),
            batches.last().shards,
            batches.last().commitments,
        )
    }
}

/// The commitments of a sequence of checkpoints, in execution order.
pub open spec fn all_commitments(batches: Seq<Batch>) -> Seq<Seq<u32>>
    decreases batches.len(),
{
    if batches.len() == 0 {
        Seq::empty()
    } else {
        all_commitments(batches.drop_last()) + batches.last().commitments
    }
}

/// The public values of the shards of a sequence of checkpoints, in
/// execution order.
pub open spec fn all_public_values(batches: Seq<Batch>) -> Seq<Seq<u32>>
    decreases batches.len(),
{
    if batches.len() == 0 {
        Seq::empty()
    } else {
        all_public_values(batches.drop_last()) + public_values_of(batches.last().shards)
    }
}

/// Every shard of every checkpoint has its commitment.
pub open spec fn fully_committed(batches: Seq<Batch>) -> bool {
    forall|i: int|
        0 <= i < batches.len() ==> (#[trigger] batches[i]).shards.len()
            == batches[i].commitments.len()
}

/// The canonical transcript: after the commit pass the transcript holds what
/// it held before, then the observation of every shard of the run in
/// execution order. It depends on the shards and their order alone, not on
/// the checkpoints at which the run was cut.
pub proof fn lemma_commit_pass_transcript(session: SessionView, batches: Seq<Batch>)
    requires
        fully_committed(batches),
    ensures
        commit_all(session, batches).transcript == session.transcript + observations(
            all_commitments(batches),
            all_public_values(batches),
            session.num_pv_elts,
        ),
        commit_all(session, batches).commitments == session.commitments + all_commitments(
            batches,
        ),
        commit_all(session, batches).offsets.len() == session.offsets.len() + batches.len(),
        commit_all(session, batches).num_pv_elts == session.num_pv_elts,
        commit_all(session, batches).public_values == session.public_values,
        commit_all(session, batches).capacity == session.capacity,
        commit_all(session, batches).total == session.total,
        all_commitments(batches).len() == all_public_values(batches).len(),
    decreases batches.len(),
{
    if batches.len() > 0 {
        let before = batches.drop_last();
        let last = batches.last();
        assert(fully_committed(before)) by {
            assert forall|i: int| 0 <= i < before.len() implies (#[trigger] before[i]).shards.len()
                == before[i].commitments.len() by {
            }
        }
        lemma_commit_pass_transcript(session, before);
        lemma_observations_append(
            all_commitments(before),
            all_public_values(before),
            last.commitments,
            public_values_of(last.shards),
            session.num_pv_elts,
        );
    }
}

/// Batching equivalence for the transcript: two ways of cutting a run into
/// checkpoints that give the same shards with the same commitments, in the
/// same order, give the same canonical transcript.
pub proof fn lemma_batching_equivalence(session: SessionView, one: Seq<Batch>, other: Seq<Batch>)
    requires
        fully_committed(one),
        fully_committed(other),
        all_commitments(one) == all_commitments(other),
        all_public_values(one) == all_public_values(other),
    ensures
        commit_all(session, one).transcript == commit_all(session, other).transcript,
        commit_all(session, one).commitments == commit_all(session, other).commitments,
{
    lemma_commit_pass_transcript(session, one);
    lemma_commit_pass_transcript(session, other);
}

/// The prove pass after the proofs of a sequence of checkpoints were taken,
/// first to last.
pub open spec fn prove_all(pass: ProveView, parts: Seq<Seq<Seq<u8>>>) -> ProveView
    decreases parts.len(),
{
    if parts.len() == 0 {
        pass
    } else {
        prove_checkpoint(prove_all(pass, parts.drop_last()), parts.last())
    }
}

/// What a run restricted to checkpoint `k` returns, where `parts[k]` are the
/// proofs of the shards of that checkpoint.
pub open spec fn partial_result(
    session: SessionView,
    cached: Option<Seq<ShardView>>,
    parts: Seq<Seq<Seq<u8>>>,
    k: int,
) -> Seq<Seq<u8>> {
    prove_checkpoint(prove_only(prove_start(session, cached), k as nat), parts[k]).proofs
}

/// A prove pass adds the proofs of its checkpoints in order, and leaves the
/// transcript alone.
pub proof fn lemma_prove_all(pass: ProveView, parts: Seq<Seq<Seq<u8>>>)
    ensures
        prove_all(pass, parts).proofs == pass.proofs + concat_proofs(parts),
        prove_all(pass, parts).cursor == pass.cursor + parts.len(),
        prove_all(pass, parts).session == pass.session,
        prove_all(pass, parts).end == pass.end,
    decreases parts.len(),
{
    if parts.len() > 0 {
        lemma_prove_all(pass, parts.drop_last());
    }
}

/// Partial-proof reassembly: proving the checkpoints of a run one by one,
/// each in a pass restricted to it, and joining the results in checkpoint
/// order gives the proofs of the pass over all checkpoints. Every restricted
/// pass proves against the transcript of the whole run.
pub proof fn lemma_partial_reassembly(
    session: SessionView,
    cached: Option<Seq<ShardView>>,
    parts: Seq<Seq<Seq<u8>>>,
)
    requires
        parts.len() == session.total,
    ensures
        concat_proofs(
            Seq::new(session.total, |k: int| partial_result(session, cached, parts, k)),
        ) == prove_all(prove_start(session, cached), parts).proofs,
        prove_all(prove_start(session, cached), parts).cursor == session.total,
        forall|k: nat|
            k < session.total ==> (#[trigger] prove_only(
                prove_start(session, cached),
                k,
            )).session.transcript == session.transcript,
{
    let start = prove_start(session, cached);
    lemma_prove_all(start, parts);
    let partials = Seq::new(session.total, |k: int| partial_result(session, cached, parts, k));
    assert forall|k: int| 0 <= k < parts.len() implies partials[k] == parts[k] by {
    }
    assert(partials =~= parts);
}

/// The places, among the shards of the run, of the shards of the first
/// `upto` checkpoints, checkpoint after checkpoint.
pub open spec fn run_indices(session: SessionView, upto: nat) -> Seq<nat>
    decreases upto,
{
    if upto == 0 {
        Seq::empty()
    } else {
        run_indices(session, (upto - 1) as nat) + session.indices_of(upto - 1)
    }
}

/// Shard order over the whole run: the places that the checkpoints give
/// their shards, taken checkpoint after checkpoint, are `0, 1, 2, ...`
/// without a gap and without a repeat, also across checkpoints. Every shard
/// of the run has its place in exactly one checkpoint.
pub proof fn lemma_run_indices(session: SessionView, upto: nat)
    requires
        session.well_formed(),
        upto < session.offsets.len(),
    ensures
        run_indices(session, upto) == Seq::new(session.offsets[upto as int], |j: int| j as nat),
    decreases upto,
{
    if upto > 0 {
        lemma_run_indices(session, (upto - 1) as nat);
    }
    assert(run_indices(session, upto) =~= Seq::new(
        session.offsets[upto as int],
        |j: int| j as nat,
    ));
}

/// Committing checkpoints keeps the offsets in step with the shards.
pub proof fn lemma_commit_all_well_formed(session: SessionView, batches: Seq<Batch>)
    requires
        session.well_formed(),
    ensures
        commit_all(session, batches).well_formed(),
        commit_all(session, batches).offsets.len() == session.offsets.len() + batches.len(),
    decreases batches.len(),
{
    if batches.len() > 0 {
        lemma_commit_all_well_formed(session, batches.drop_last());
    }
}

/// A run numbers its shards `0 .. n - 1`: after the commit pass over all
/// checkpoints the places of the shards, checkpoint after checkpoint, count
/// up from zero to the number of shards of the run, however the run was cut
/// into checkpoints.
pub proof fn lemma_run_is_numbered(
    vk: VerifyingKey,
    public_values: Seq<u32>,
    num_pv_elts: nat,
    capacity: nat,
    batches: Seq<Batch>,
)
    ensures
        ({
            let session = commit_all(
                session_start(vk, public_values, num_pv_elts, capacity, batches.len()),
                batches,
            );
            &&& session.well_formed()
            &&& session.committed() == batches.len()
            &&& run_indices(session, batches.len()) == Seq::new(
                session.commitments.len(),
                |j: int| j as nat,
            )
        }),
{
    let start = session_start(vk, public_values, num_pv_elts, capacity, batches.len());
    lemma_commit_all_well_formed(start, batches);
    lemma_run_indices(commit_all(start, batches), batches.len());
}

} // verus!
