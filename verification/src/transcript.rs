//! The transcript: what has been observed, in the order in which it was
//! observed.
//!
//! A transcript is a value. It is handed on explicitly, and a copy of it is
//! independent of the transcript it was taken from: observing into one leaves
//! the other as it was.
//!
//! The transcript keeps the words; it draws no challenge. A backend feeds the
//! words, first to last, to its own challenger, so two transcripts with the
//! same words yield the same challenges.

use crate::sharding::Shard;
use crate::sharding::ShardView;
use crate::sharding::shards_view;
use vstd::prelude::*;
use vstd::slice::slice_to_vec;

verus! {

/// The number of words of a commitment.
pub const DIGEST_WORDS: usize = 8;

/// A binding digest of a committed trace.
#[derive(Clone, Copy, Debug, PartialEq, Eq)]
pub struct Commitment {
    pub digest: [u32; 8],
}

impl View for Commitment {
    type V = Seq<u32>;

    open spec fn view(&self) -> Seq<u32> {
        self.digest@
    }
}

impl Commitment {
    /// Whether two commitments hold the same words.
    pub fn same_as(&self, other: &Commitment) -> (same: bool)
        ensures
            same <==> self@ == other@,
    {
        let mut i: usize = 0;
        while i < DIGEST_WORDS
            invariant
                i <= DIGEST_WORDS,
                forall|j: int| 0 <= j < i ==> self.digest@[j] == other.digest@[j],
            decreases DIGEST_WORDS - i,
        {
            if self.digest[i] != other.digest[i] {
                return false;
            }
            i += 1;
        }
        assert(self.digest@ =~= other.digest@);
        true
    }
}

/// The contents of a sequence of commitments.
pub open spec fn commitments_view(commitments: Seq<Commitment>) -> Seq<Seq<u32>> {
    commitments.map_values(|c: Commitment| c@)
}

/// Whether two lists of commitments are as long and hold the same words,
/// place by place.
pub fn same_commitments(one: &Vec<Commitment>, other: &Vec<Commitment>) -> (same: bool)
    ensures
        same <==> commitments_view(one@) == commitments_view(other@),
{
    if one.len() != other.len() {
        return false;
    }
    let mut i: usize = 0;
    while i < one.len()
        invariant
            i <= one@.len(),
            one@.len() == other@.len(),
            forall|j: int| 0 <= j < i ==> (#[trigger] one@[j])@ == other@[j]@,
        decreases one@.len() - i,
    {
        if !one[i].same_as(&other[i]) {
            assert(commitments_view(one@)[i as int] != commitments_view(other@)[i as int]);
            return false;
        }
        i += 1;
    }
    assert(commitments_view(one@) =~= commitments_view(other@));
    true
}

/// The public artifact of setup: a commitment to the program and the address
/// at which execution starts.
#[derive(Clone, Copy, Debug, PartialEq, Eq)]
pub struct VerifyingKey {
    pub commitment: Commitment,
    pub pc_start: u32,
}

impl VerifyingKey {
    /// The words that a verifying key adds to a transcript: its commitment,
    /// then the start address.
    pub open spec fn observation(self) -> Seq<u32> {
        self.commitment@.push(self.pc_start)
    }

    /// Observes the key into a transcript.
    pub fn observe_into(&self, challenger: &mut Transcript)
        ensures
            final(challenger)@ == old(challenger)@ + self.observation(),
    {
        challenger.observe_commitment(&self.commitment);
        challenger.observe(self.pc_start);
    }
}

/// The accumulator of everything observed so far.
#[derive(Debug, PartialEq, Eq)]
pub struct Transcript {
    observed: Vec<u32>,
}

impl View for Transcript {
    type V = Seq<u32>;

    closed spec fn view(&self) -> Seq<u32> {
        self.observed@
    }
}

impl Clone for Transcript {
    /// A copy bound to everything observed so far and independent from then
    /// on.
    fn clone(&self) -> (copy: Transcript)
        ensures
            copy@ == self@,
    {
        Transcript { observed: slice_to_vec(self.observed.as_slice()) }
    }
}

impl Transcript {
    /// A transcript that has observed nothing.
    pub fn new() -> (challenger: Transcript)
        ensures
            challenger@ == Seq::<u32>::empty(),
    {
        Transcript { observed: Vec::new() }
    }

    /// Observes one word.
    pub fn observe(&mut self, value: u32)
        ensures
            final(self)@ == old(self)@.push(value),
    {
        self.observed.push(value);
    }

    /// Observes the given words, first to last.
    pub fn observe_slice(&mut self, values: &[u32])
        ensures
            final(self)@ == old(self)@ + values@,
    {
        let mut i: usize = 0;
        while i < values.len()
            invariant
                i <= values@.len(),
                self@ == old(self)@ + values@.take(i as int),
            decreases values@.len() - i,
        {
            self.observed.push(values[i]);
            i += 1;
        }
    }

    /// Observes the words of a commitment.
    pub fn observe_commitment(&mut self, commitment: &Commitment)
        ensures
            final(self)@ == old(self)@ + commitment@,
    {
        self.observe_slice(commitment.digest.as_slice());
    }

    /// The observed words, first to last.
    pub fn observed(&self) -> (words: &Vec<u32>)
        ensures
            words@ == self@,
    {
        &self.observed
    }
}

/// The public values of a sequence of shards.
pub open spec fn public_values_of(shards: Seq<ShardView>) -> Seq<Seq<u32>> {
    shards.map_values(|s: ShardView| s.public_values)
}

/// What one shard adds to a transcript: its commitment, then the first
/// `num_pv_elts` of its public values.
pub open spec fn shard_observation(
    commitment: Seq<u32>,
    public_values: Seq<u32>,
    num_pv_elts: nat,
) -> Seq<u32> {
    commitment + public_values.take(num_pv_elts as int)
}

/// What the first `n` shards add to a transcript, in shard order.
pub open spec fn observations_upto(
    commitments: Seq<Seq<u32>>,
    public_values: Seq<Seq<u32>>,
    num_pv_elts: nat,
    n: nat,
) -> Seq<u32>
    decreases n,
{
    if n == 0 {
        Seq::empty()
    } else {
        observations_upto(commitments, public_values, num_pv_elts, (n - 1) as nat)
            + shard_observation(commitments[n - 1], public_values[n - 1], num_pv_elts)
    }
}

/// How many shards come with a commitment.
pub open spec fn paired(commitments: Seq<Seq<u32>>, public_values: Seq<Seq<u32>>) -> nat {
    if commitments.len() <= public_values.len() {
        commitments.len()
    } else {
        public_values.len()
    }
}

/// What a batch of committed shards adds to a transcript, given the
/// commitment and the public values of each: the observation of every shard
/// that has a commitment, in shard order.
pub open spec fn observations(
    commitments: Seq<Seq<u32>>,
    public_values: Seq<Seq<u32>>,
    num_pv_elts: nat,
) -> Seq<u32> {
    observations_upto(commitments, public_values, num_pv_elts, paired(commitments, public_values))
}

/// Observes a batch of committed shards into the transcript, in shard order:
/// for each shard its commitment, then the first `num_pv_elts` of its public
/// values.
pub fn observe_shards(
    challenger: &mut Transcript,
    commitments: &Vec<Commitment>,
    shards: &Vec<Shard>,
    num_pv_elts: usize,
)
    requires
        forall|i: int|
            0 <= i < shards@.len() && i < commitments@.len() ==> num_pv_elts <= (
            #[trigger] shards@[i]).public_values@.len(),
    ensures
        final(challenger)@ == old(challenger)@ + observations(
            commitments_view(commitments@),
            public_values_of(shards_view(shards@)),
            num_pv_elts as nat,
        ),
{
    let ghost cs = commitments_view(commitments@);
    let ghost ps = public_values_of(shards_view(shards@));
    let n: usize = if commitments.len() <= shards.len() {
        commitments.len()
    } else {
        shards.len()
    };
    let mut i: usize = 0;
    while i < n
        invariant
            i <= n,
            n == paired(cs, ps),
            cs == commitments_view(commitments@),
            ps == public_values_of(shards_view(shards@)),
            forall|j: int|
                0 <= j < shards@.len() && j < commitments@.len() ==> num_pv_elts <= (
                #[trigger] shards@[j]).public_values@.len(),
            challenger@ == old(challenger)@ + observations_upto(
                cs,
                ps,
                num_pv_elts as nat,
                i as nat,
            ),
        decreases n - i,
    {
        challenger.observe_commitment(&commitments[i]);
        let values = vstd::slice::slice_subrange(
            shards[i].public_values.as_slice(),
            0,
            num_pv_elts,
        );
        challenger.observe_slice(values);
        i += 1;
    }
}

/// The observation of the first `n` shards depends on those shards alone.
pub proof fn lemma_observations_upto_prefix(
    c1: Seq<Seq<u32>>,
    v1: Seq<Seq<u32>>,
    c2: Seq<Seq<u32>>,
    v2: Seq<Seq<u32>>,
    num_pv_elts: nat,
    n: nat,
)
    requires
        n <= c1.len(),
        n <= v1.len(),
        n <= c2.len(),
        n <= v2.len(),
        forall|i: int| 0 <= i < n ==> c1[i] == c2[i] && v1[i] == v2[i],
    ensures
        observations_upto(c1, v1, num_pv_elts, n) == observations_upto(c2, v2, num_pv_elts, n),
    decreases n,
{
    if n > 0 {
        lemma_observations_upto_prefix(c1, v1, c2, v2, num_pv_elts, (n - 1) as nat);
    }
}

/// The first shards of two batches taken as one give the observations of the
/// first batch, then those of the first shards of the second.
pub proof fn lemma_observations_upto_append(
    c1: Seq<Seq<u32>>,
    v1: Seq<Seq<u32>>,
    c2: Seq<Seq<u32>>,
    v2: Seq<Seq<u32>>,
    num_pv_elts: nat,
    n: nat,
)
    requires
        c1.len() == v1.len(),
        n <= paired(c2, v2),
    ensures
        observations_upto(c1 + c2, v1 + v2, num_pv_elts, c1.len() + n) == observations(
            c1,
            v1,
            num_pv_elts,
        ) + observations_upto(c2, v2, num_pv_elts, n),
    decreases n,
{
    if n == 0 {
        lemma_observations_upto_prefix(c1, v1, c1 + c2, v1 + v2, num_pv_elts, c1.len());
    } else {
        lemma_observations_upto_append(c1, v1, c2, v2, num_pv_elts, (n - 1) as nat);
    }
}

/// Observing one batch and then another is observing the two as one: the
/// transcript depends on the order of the shards, not on how they were
/// batched.
pub proof fn lemma_observations_append(
    c1: Seq<Seq<u32>>,
    v1: Seq<Seq<u32>>,
    c2: Seq<Seq<u32>>,
    v2: Seq<Seq<u32>>,
    num_pv_elts: nat,
)
    requires
        c1.len() == v1.len(),
        c2.len() == v2.len(),
    ensures
        observations(c1 + c2, v1 + v2, num_pv_elts) == observations(c1, v1, num_pv_elts)
            + observations(c2, v2, num_pv_elts),
{
    lemma_observations_upto_append(c1, v1, c2, v2, num_pv_elts, c2.len());
}

/// The observations of `n` shards whose commitments have `width` words each
/// and that have `num_pv_elts` public values or more are `n` blocks of
/// `width + num_pv_elts` words.
pub proof fn lemma_observations_len(
    commitments: Seq<Seq<u32>>,
    public_values: Seq<Seq<u32>>,
    num_pv_elts: nat,
    width: nat,
    n: nat,
)
    requires
        n <= commitments.len(),
        n <= public_values.len(),
        forall|i: int| 0 <= i < n ==> (#[trigger] commitments[i]).len() == width,
        forall|i: int| 0 <= i < n ==> num_pv_elts <= (#[trigger] public_values[i]).len(),
    ensures
        observations_upto(commitments, public_values, num_pv_elts, n).len() == n * (width
            + num_pv_elts),
    decreases n,
{
    if n > 0 {
        lemma_observations_len(commitments, public_values, num_pv_elts, width, (n - 1) as nat);
        assert(n * (width + num_pv_elts) == (n - 1) * (width + num_pv_elts) + (width
            + num_pv_elts)) by (nonlinear_arith);
    } else {
        assert(0 * (width + num_pv_elts) == 0) by (nonlinear_arith);
    }
}

/// The transcript binds what it observed: two batches of shards, with
/// commitments of `width >= 1` words and `num_pv_elts` public values or more
/// each, that add the same words to a transcript are as many shards, with the
/// same commitments and the same observed public values, shard by shard. A
/// change to any commitment, or to any observed public value, changes the
/// transcript.
pub proof fn lemma_observations_bind(
    c1: Seq<Seq<u32>>,
    v1: Seq<Seq<u32>>,
    c2: Seq<Seq<u32>>,
    v2: Seq<Seq<u32>>,
    num_pv_elts: nat,
    width: nat,
)
    requires
        width >= 1,
        c1.len() == v1.len(),
        c2.len() == v2.len(),
        forall|i: int| 0 <= i < c1.len() ==> (#[trigger] c1[i]).len() == width,
        forall|i: int| 0 <= i < c2.len() ==> (#[trigger] c2[i]).len() == width,
        forall|i: int| 0 <= i < v1.len() ==> num_pv_elts <= (#[trigger] v1[i]).len(),
        forall|i: int| 0 <= i < v2.len() ==> num_pv_elts <= (#[trigger] v2[i]).len(),
        observations(c1, v1, num_pv_elts) == observations(c2, v2, num_pv_elts),
    ensures
        c1.len() == c2.len(),
        forall|i: int| 0 <= i < c1.len() ==> c1[i] == c2[i],
        forall|i: int|
            0 <= i < c1.len() ==> v1[i].take(num_pv_elts as int) == v2[i].take(num_pv_elts as int),
{
    let block = width + num_pv_elts;
    lemma_observations_len(c1, v1, num_pv_elts, width, c1.len());
    lemma_observations_len(c2, v2, num_pv_elts, width, c2.len());
    assert(c1.len() == c2.len()) by (nonlinear_arith)
        requires
            c1.len() * block == c2.len() * block,
            block >= 1,
    ;
    lemma_observations_upto_bind(c1, v1, c2, v2, num_pv_elts, width, c1.len());
}

/// The same for the first `n` shards.
proof fn lemma_observations_upto_bind(
    c1: Seq<Seq<u32>>,
    v1: Seq<Seq<u32>>,
    c2: Seq<Seq<u32>>,
    v2: Seq<Seq<u32>>,
    num_pv_elts: nat,
    width: nat,
    n: nat,
)
    requires
        n <= c1.len(),
        n <= v1.len(),
        n <= c2.len(),
        n <= v2.len(),
        forall|i: int| 0 <= i < n ==> (#[trigger] c1[i]).len() == width,
        forall|i: int| 0 <= i < n ==> (#[trigger] c2[i]).len() == width,
        forall|i: int| 0 <= i < n ==> num_pv_elts <= (#[trigger] v1[i]).len(),
        forall|i: int| 0 <= i < n ==> num_pv_elts <= (#[trigger] v2[i]).len(),
        observations_upto(c1, v1, num_pv_elts, n) == observations_upto(c2, v2, num_pv_elts, n),
    ensures
        forall|i: int| 0 <= i < n ==> c1[i] == c2[i],
        forall|i: int|
            0 <= i < n ==> v1[i].take(num_pv_elts as int) == v2[i].take(num_pv_elts as int),
    decreases n,
{
    if n > 0 {
        let m = (n - 1) as nat;
        let a1 = observations_upto(c1, v1, num_pv_elts, m);
        let a2 = observations_upto(c2, v2, num_pv_elts, m);
        let b1 = shard_observation(c1[n - 1], v1[n - 1], num_pv_elts);
        let b2 = shard_observation(c2[n - 1], v2[n - 1], num_pv_elts);
        lemma_observations_len(c1, v1, num_pv_elts, width, m);
        lemma_observations_len(c2, v2, num_pv_elts, width, m);
        assert(a1 =~= (a1 + b1).take(a1.len() as int));
        assert(a2 =~= (a2 + b2).take(a2.len() as int));
        assert(b1 =~= (a1 + b1).skip(a1.len() as int));
        assert(b2 =~= (a2 + b2).skip(a2.len() as int));
        assert(c1[n - 1] =~= b1.take(width as int));
        assert(c2[n - 1] =~= b2.take(width as int));
        assert(v1[n - 1].take(num_pv_elts as int) =~= b1.skip(width as int));
        assert(v2[n - 1].take(num_pv_elts as int) =~= b2.skip(width as int));
        lemma_observations_upto_bind(c1, v1, c2, v2, num_pv_elts, width, m);
    }
}

} // verus!
