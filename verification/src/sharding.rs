//! The sharding engine: cuts an execution record into shards of bounded size.
//!
//! Sharding is a pure function of the record and the capacity. The shard at
//! position `i` holds the events `i * capacity .. (i + 1) * capacity` of the
//! record (the last shard may be shorter), carries the index `i` and a copy of
//! the record's public values.

use vstd::prelude::*;
use vstd::slice::slice_subrange;
use vstd::slice::slice_to_vec;

verus! {

/// The type of an event of an execution trace.
#[derive(Clone, Copy, Debug, PartialEq, Eq, Structural)]
pub enum EventKind {
    /// One processor step.
    Cpu,
    /// One memory access.
    Memory,
    /// One call into the host.
    Syscall,
}

/// One event of an execution trace.
#[derive(Clone, Copy, Debug, PartialEq, Eq, Structural)]
pub struct Event {
    pub kind: EventKind,
    /// The cycle at which the event happened.
    pub clk: u32,
    /// The value the event carries.
    pub value: u32,
}

/// What one execution pass produced: its events, in order, and the public
/// values that the whole program claims.
#[derive(Debug, PartialEq, Eq)]
pub struct ExecutionRecord {
    pub events: Vec<Event>,
    pub public_values: Vec<u32>,
}

/// The mathematical content of an [`ExecutionRecord`].
pub struct RecordView {
    pub events: Seq<Event>,
    pub public_values: Seq<u32>,
}

impl View for ExecutionRecord {
    type V = RecordView;

    open spec fn view(&self) -> RecordView {
        RecordView { events: self.events@, public_values: self.public_values@ }
    }
}

/// The sharding policy: how many events one shard may hold. Never zero.
#[derive(Clone, Copy, Debug, PartialEq, Eq)]
pub struct ShardingConfig {
    max_events: usize,
}

impl ShardingConfig {
    #[verifier::type_invariant]
    spec fn holds_something(self) -> bool {
        self.max_events > 0
    }

    /// The capacity of a shard, as a number.
    pub closed spec fn capacity(self) -> nat {
        self.max_events as nat
    }

    /// A policy with the given capacity; none for a capacity of zero, which
    /// could hold no event.
    pub fn new(max_events: usize) -> (config: Option<ShardingConfig>)
        ensures
            config is None <==> max_events == 0,
            config matches Some(c) ==> c.capacity() == max_events,
    {
        if max_events == 0 {
            None
        } else {
            Some(ShardingConfig { max_events })
        }
    }

    /// The capacity of a shard.
    pub fn max_events(&self) -> (max: usize)
        ensures
            max == self.capacity(),
            max > 0,
    {
        proof {
            use_type_invariant(self);
        }
        self.max_events
    }
}

/// A contiguous piece of an execution record.
#[derive(Debug, PartialEq, Eq)]
pub struct Shard {
    /// The position of the shard among the shards of its record. Its place
    /// in a run of several checkpoints is the number of shards before its
    /// record, plus this.
    pub index: usize,
    pub events: Vec<Event>,
    pub public_values: Vec<u32>,
}

/// The mathematical content of a [`Shard`].
pub struct ShardView {
    pub index: nat,
    pub events: Seq<Event>,
    pub public_values: Seq<u32>,
}

impl View for Shard {
    type V = ShardView;

    open spec fn view(&self) -> ShardView {
        ShardView {
            index: self.index as nat,
            events: self.events@,
            public_values: self.public_values@,
        }
    }
}

impl Clone for Shard {
    fn clone(&self) -> (copy: Shard)
        ensures
            copy@ == self@,
    {
        Shard {
            index: self.index,
            events: slice_to_vec(self.events.as_slice()),
            public_values: slice_to_vec(self.public_values.as_slice()),
        }
    }
}

/// The contents of a sequence of shards.
pub open spec fn shards_view(shards: Seq<Shard>) -> Seq<ShardView> {
    shards.map_values(|s: Shard| s@)
}

/// How many shards a record of `len` events gives: `len / max`, rounded up.
pub open spec fn shard_count(len: nat, max: nat) -> nat {
    if max == 0 {
        0
    } else {
        ((len + max - 1) / (max as int)) as nat
    }
}

/// Where the shard at position `i` ends in a record of `len` events.
pub open spec fn shard_end(len: nat, max: nat, i: int) -> int {
    if (i + 1) * max < len {
        (i + 1) * max
    } else {
        len as int
    }
}

/// The shard at position `i` of a record.
pub open spec fn shard_at(record: RecordView, max: nat, i: int) -> ShardView {
    ShardView {
        index: i as nat,
        events: record.events.subrange(i * max, shard_end(record.events.len(), max, i)),
        public_values: record.public_values,
    }
}

/// The shards of a record, in order.
pub open spec fn shards_of(record: RecordView, max: nat) -> Seq<ShardView> {
    Seq::new(shard_count(record.events.len(), max), |i: int| shard_at(record, max, i))
}

/// The events of a sequence of shards, one shard after the other.
pub open spec fn concat_events(shards: Seq<ShardView>) -> Seq<Event>
    decreases shards.len(),
{
    if shards.len() == 0 {
        Seq::empty()
    } else {
        concat_events(shards.drop_last()) + shards.last().events
    }
}

/// The same shards, each index raised by `offset`.
pub open spec fn shift_indices(shards: Seq<ShardView>, offset: nat) -> Seq<ShardView> {
    Seq::new(
        shards.len(),
        |i: int|
            ShardView {
                index: shards[i].index + offset,
                events: shards[i].events,
                public_values: shards[i].public_values,
            },
    )
}

/// A position lies below the shard count exactly when the shard there would
/// start inside the record.
pub proof fn lemma_shard_count_bounds(len: nat, max: nat, i: int)
    requires
        max > 0,
        0 <= i,
    ensures
        i < shard_count(len, max) <==> i * max < len,
{
    let total = len + max - 1;
    let count = total / (max as int);
    vstd::arithmetic::div_mod::lemma_fundamental_div_mod(total, max as int);
    vstd::arithmetic::div_mod::lemma_mod_bound(total, max as int);
    assert(0 <= count) by {
        vstd::arithmetic::div_mod::lemma_div_pos_is_pos(total, max as int);
    }
    if i < count {
        assert((i + 1) * max <= count * max) by (nonlinear_arith)
            requires
                i + 1 <= count,
                max > 0,
        ;
        assert((i + 1) * max == i * max + max) by (nonlinear_arith);
        assert(max * count == count * max) by (nonlinear_arith);
    } else {
        assert(count * max <= i * max) by (nonlinear_arith)
            requires
                count <= i,
                max > 0,
        ;
        assert(max * count == count * max) by (nonlinear_arith);
    }
}

/// Cuts a record into shards of at most `config.max_events()` events each.
///
/// The result is exactly [`shards_of`]: shard `i` carries index `i`, the
/// events `i * max .. min((i + 1) * max, len)` and the record's public values.
/// Nothing else enters the result, so sharding the same record again gives the
/// same shards.
pub fn shard(record: &ExecutionRecord, config: &ShardingConfig) -> (shards: Vec<Shard>)
    ensures
        shards_view(shards@) == shards_of(record@, config.capacity()),
        shards@.len() == shard_count(record.events@.len(), config.capacity()),
        forall|i: int| 0 <= i < shards@.len() ==> (#[trigger] shards@[i]).index == i,
{
    let max = config.max_events();
    let len = record.events.len();
    let mut shards: Vec<Shard> = Vec::new();
    let mut start: usize = 0;
    proof {
        lemma_shard_count_bounds(len as nat, max as nat, 0);
        assert(0 * max == 0) by (nonlinear_arith);
    }
    while start < len
        invariant
            max > 0,
            max == config.capacity(),
            len == record.events@.len(),
            start <= len,
            start < len ==> start == shards@.len() * max,
            start == len ==> shards@.len() == shard_count(len as nat, max as nat),
            shards@.len() <= shard_count(len as nat, max as nat),
            forall|i: int|
                0 <= i < shards@.len() ==> (#[trigger] shards@[i])@ == shard_at(
                    record@,
                    max as nat,
                    i,
                ),
        decreases len - start,
    {
        let ghost i = shards@.len() as int;
        proof {
            lemma_shard_count_bounds(len as nat, max as nat, i);
            lemma_shard_count_bounds(len as nat, max as nat, i + 1);
            assert((i + 1) * max == i * max + max) by (nonlinear_arith);
        }
        let end: usize = if len - start > max {
            start + max
        } else {
            len
        };
        let events = slice_to_vec(slice_subrange(record.events.as_slice(), start, end));
        let public_values = slice_to_vec(record.public_values.as_slice());
        let index: usize = shards.len();
        shards.push(Shard { index, events, public_values });
        start = end;
    }
    proof {
        if len == 0 {
            lemma_shard_count_bounds(0, max as nat, 0);
        }
    }
    shards
}

/// Shard indices are `0 .. n - 1`: strictly increasing from zero, without a
/// gap.
pub proof fn lemma_shard_indices(record: RecordView, max: nat)
    ensures
        forall|i: int|
            0 <= i < shards_of(record, max).len() ==> (#[trigger] shards_of(record, max)[i]).index
                == i,
        forall|i: int, j: int|
            0 <= i < j < shards_of(record, max).len() ==> shards_of(record, max)[i].index
                < shards_of(record, max)[j].index,
{
}

/// Every shard holds at least one event and at most `max`; every shard but
/// the last is full.
pub proof fn lemma_shard_sizes(record: RecordView, max: nat, i: int)
    requires
        max > 0,
        0 <= i < shards_of(record, max).len(),
    ensures
        1 <= shards_of(record, max)[i].events.len() <= max,
        i + 1 < shards_of(record, max).len() ==> shards_of(record, max)[i].events.len() == max,
{
    let len = record.events.len();
    lemma_shard_count_bounds(len, max, i);
    lemma_shard_count_bounds(len, max, i + 1);
    assert((i + 1) * max == i * max + max) by (nonlinear_arith);
    assert(0 <= i * max) by (nonlinear_arith)
        requires
            0 <= i,
            0 < max,
    ;
}

/// The events of the first `n` shards are the first events of the record, up
/// to the end of shard `n - 1`.
proof fn lemma_concat_prefix(record: RecordView, max: nat, n: int)
    requires
        max > 0,
        0 <= n <= shards_of(record, max).len(),
    ensures
        concat_events(shards_of(record, max).take(n)) == record.events.take(
            if n == 0 {
                0
            } else {
                shard_end(record.events.len(), max, n - 1)
            },
        ),
    decreases n,
{
    let all = shards_of(record, max);
    let len = record.events.len();
    if n > 0 {
        lemma_concat_prefix(record, max, n - 1);
        lemma_shard_count_bounds(len, max, n - 1);
        lemma_shard_count_bounds(len, max, n);
        assert(n * max == (n - 1) * max + max) by (nonlinear_arith);
        assert(0 <= (n - 1) * max) by (nonlinear_arith)
            requires
                1 <= n,
                0 < max,
        ;
        if n > 1 {
            lemma_shard_count_bounds(len, max, n - 2);
            assert((n - 1) * max == (n - 2) * max + max) by (nonlinear_arith);
        }
        assert(all.take(n).drop_last() =~= all.take(n - 1));
    }
}

/// The shards cover the record: their events, one shard after the other, are
/// the events of the record, none missing, none twice, none out of place.
pub proof fn lemma_shards_cover_record(record: RecordView, max: nat)
    requires
        max > 0,
    ensures
        concat_events(shards_of(record, max)) == record.events,
{
    let all = shards_of(record, max);
    let len = record.events.len();
    let n = all.len() as int;
    lemma_concat_prefix(record, max, n);
    assert(all.take(n) =~= all);
    if n == 0 {
        lemma_shard_count_bounds(len, max, 0);
        assert(0 * max == 0) by (nonlinear_arith);
    } else {
        lemma_shard_count_bounds(len, max, n);
    }
}

/// Sharding distributes over a cut at a shard boundary: where the first part
/// of a record fills its shards exactly, the shards of the whole are the
/// shards of the first part followed by those of the rest, the latter numbered
/// on from where the former stop. Executing in batches that end on a shard
/// boundary therefore yields the same shards as executing in one go.
pub proof fn lemma_shard_aligned_concat(
    first: Seq<Event>,
    rest: Seq<Event>,
    public_values: Seq<u32>,
    max: nat,
)
    requires
        max > 0,
        first.len() % max == 0,
    ensures
        shards_of(RecordView { events: first + rest, public_values }, max) == shards_of(
            RecordView { events: first, public_values },
            max,
        ) + shift_indices(
            shards_of(RecordView { events: rest, public_values }, max),
            shard_count(first.len(), max),
        ),
{
    let whole = RecordView { events: first + rest, public_values };
    let head = RecordView { events: first, public_values };
    let tail = RecordView { events: rest, public_values };
    let k = (first.len() / max) as int;
    vstd::arithmetic::div_mod::lemma_fundamental_div_mod(first.len() as int, max as int);
    assert(first.len() == k * max) by {
        assert(max * k == k * max) by (nonlinear_arith);
    }
    assert(0 <= k) by {
        vstd::arithmetic::div_mod::lemma_div_pos_is_pos(first.len() as int, max as int);
    }
    let n_head = shard_count(first.len(), max) as int;
    let n_tail = shard_count(rest.len(), max) as int;
    let n_whole = shard_count((first + rest).len(), max) as int;
    // The first part gives exactly k shards.
    assert(n_head == k) by {
        lemma_shard_count_bounds(first.len(), max, k);
        if k > 0 {
            lemma_shard_count_bounds(first.len(), max, k - 1);
            assert((k - 1) * max < k * max) by (nonlinear_arith)
                requires
                    max > 0,
            ;
        }
    }
    // The whole gives k shards more than the rest.
    assert(n_whole == k + n_tail) by {
        lemma_shard_count_bounds((first + rest).len(), max, k + n_tail);
        lemma_shard_count_bounds(rest.len(), max, n_tail);
        assert((k + n_tail) * max == k * max + n_tail * max) by (nonlinear_arith);
        if n_tail > 0 {
            lemma_shard_count_bounds((first + rest).len(), max, k + n_tail - 1);
            lemma_shard_count_bounds(rest.len(), max, n_tail - 1);
            assert((k + n_tail - 1) * max == k * max + (n_tail - 1) * max) by (nonlinear_arith);
        } else if k > 0 {
            lemma_shard_count_bounds((first + rest).len(), max, k - 1);
            assert((k - 1) * max < k * max) by (nonlinear_arith)
                requires
                    max > 0,
            ;
        }
    }
    let left = shards_of(whole, max);
    let right = shards_of(head, max) + shift_indices(shards_of(tail, max), n_head as nat);
    assert forall|i: int| 0 <= i < left.len() implies left[i] == right[i] by {
        assert((i + 1) * max == i * max + max) by (nonlinear_arith);
        assert(0 <= i * max) by (nonlinear_arith)
            requires
                0 <= i,
                0 < max,
        ;
        if i < k {
            assert((i + 1) * max <= k * max) by (nonlinear_arith)
                requires
                    i + 1 <= k,
                    max > 0,
            ;
            lemma_shard_count_bounds(first.len(), max, i);
            assert(whole.events.subrange(i * max, (i + 1) * max) =~= first.subrange(
                i * max,
                (i + 1) * max,
            ));
        } else {
            let j = i - k;
            assert(i * max == k * max + j * max) by (nonlinear_arith)
                requires
                    i == k + j,
            ;
            assert((j + 1) * max == j * max + max) by (nonlinear_arith);
            assert(0 <= j * max) by (nonlinear_arith)
                requires
                    0 <= j,
                    0 < max,
            ;
            lemma_shard_count_bounds(rest.len(), max, j);
            assert(whole.events.subrange(i * max, shard_end(whole.events.len(), max, i))
                =~= rest.subrange(j * max, shard_end(rest.len(), max, j)));
        }
    }
}

} // verus!
