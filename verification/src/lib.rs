//! Checkpoint-sharded proving protocol: the ordering, bookkeeping and framing
//! rules that turn an execution trace into one verifiable machine proof.
//!
//! An execution is cut into checkpoints, every checkpoint into shards. The
//! commitments of all shards are observed into one transcript, in execution
//! order, before any shard is proved; every shard is then proved against a
//! copy of that transcript, here or on a worker, and the proofs are put
//! together in shard order.
//!
//! - [`sharding`]: cuts an execution record into shards.
//! - [`transcript`]: the words observed so far, and what a batch of shards adds.
//! - [`controller`]: the execute, commit and prove passes of a run.
//! - [`distributed`]: units of work for workers, and the coordinator.
//! - [`machine`]: the proof of a run, and the order of its verification.
//! - [`shard_proof`]: shard proofs in transport, and their byte format.
//! - [`config`]: the backend presets and their parameters.
//! - [`error`]: the failures of proving and of verification.
//!
//! The library executes no program, commits to no trace and opens no
//! polynomial: the engine and the backend do, and hand the outcome in.

pub mod config;
pub mod controller;
pub mod distributed;
pub mod error;
pub mod machine;
pub mod shard_proof;
pub mod sharding;
pub mod transcript;
