use shard_prover::sharding::Shard;
use shard_prover::transcript::{observe_shards, Commitment, Transcript, VerifyingKey};

fn digest(seed: u32) -> Commitment {
    Commitment { digest: [seed, seed + 1, seed + 2, seed + 3, seed + 4, seed + 5, seed + 6, seed + 7] }
}

fn bare_shard(index: usize, public_values: Vec<u32>) -> Shard {
    Shard { index, events: Vec::new(), public_values }
}

#[test]
fn new_transcript_is_empty() {
    assert_eq!(Transcript::new().observed(), &Vec::<u32>::new());
}

#[test]
fn observations_append_in_order() {
    let mut t = Transcript::new();
    t.observe(5);
    t.observe_slice(&[6, 7]);
    t.observe_slice(&[]);
    t.observe_commitment(&digest(10));
    assert_eq!(t.observed(), &vec![5, 6, 7, 10, 11, 12, 13, 14, 15, 16, 17]);
}

#[test]
fn verifying_key_observes_commitment_then_start() {
    let vk = VerifyingKey { commitment: digest(1), pc_start: 99 };
    let mut t = Transcript::new();
    t.observe(0);
    vk.observe_into(&mut t);
    assert_eq!(t.observed(), &vec![0, 1, 2, 3, 4, 5, 6, 7, 8, 99]);
}

#[test]
fn clone_is_independent_of_its_source() {
    let mut source = Transcript::new();
    source.observe(1);
    let mut copy = source.clone();
    assert_eq!(copy, source);
    copy.observe(2);
    assert_eq!(source.observed(), &vec![1]);
    assert_eq!(copy.observed(), &vec![1, 2]);
    source.observe(3);
    assert_eq!(source.observed(), &vec![1, 3]);
    assert_eq!(copy.observed(), &vec![1, 2]);
}

#[test]
fn shards_are_observed_in_shard_order() {
    let mut t = Transcript::new();
    t.observe(42);
    let commitments = vec![digest(100), digest(200)];
    let shards = vec![bare_shard(0, vec![1, 2, 3]), bare_shard(1, vec![4, 5, 6])];
    observe_shards(&mut t, &commitments, &shards, 2);
    assert_eq!(
        t.observed(),
        &vec![
            42, 100, 101, 102, 103, 104, 105, 106, 107, 1, 2, 200, 201, 202, 203, 204, 205, 206,
            207, 4, 5
        ]
    );
}

#[test]
fn only_paired_shards_are_observed() {
    let mut t = Transcript::new();
    let commitments = vec![digest(100)];
    let shards = vec![bare_shard(0, vec![1]), bare_shard(1, vec![2])];
    observe_shards(&mut t, &commitments, &shards, 1);
    assert_eq!(t.observed(), &vec![100, 101, 102, 103, 104, 105, 106, 107, 1]);

    let mut t = Transcript::new();
    let commitments = vec![digest(100), digest(200)];
    let shards = vec![bare_shard(0, vec![1])];
    observe_shards(&mut t, &commitments, &shards, 0);
    assert_eq!(t.observed(), &vec![100, 101, 102, 103, 104, 105, 106, 107]);
}

#[test]
fn observing_in_two_batches_is_observing_in_one() {
    let commitments = vec![digest(10), digest(20), digest(30)];
    let shards =
        vec![bare_shard(0, vec![1, 2]), bare_shard(1, vec![3, 4]), bare_shard(2, vec![5, 6])];
    let mut whole = Transcript::new();
    observe_shards(&mut whole, &commitments, &shards, 2);

    let mut split = Transcript::new();
    observe_shards(&mut split, &commitments[0..1].to_vec(), &shards[0..1].to_vec(), 2);
    observe_shards(&mut split, &commitments[1..3].to_vec(), &shards[1..3].to_vec(), 2);
    assert_eq!(split, whole);
}

#[test]
fn swapped_shards_change_the_transcript() {
    let commitments = vec![digest(10), digest(20)];
    let swapped = vec![digest(20), digest(10)];
    let shards = vec![bare_shard(0, vec![1]), bare_shard(1, vec![1])];
    let mut a = Transcript::new();
    observe_shards(&mut a, &commitments, &shards, 1);
    let mut b = Transcript::new();
    observe_shards(&mut b, &swapped, &shards, 1);
    assert_ne!(a, b);
}

#[test]
fn commitments_compare_by_their_words() {
    assert!(digest(1).same_as(&digest(1)));
    assert!(!digest(1).same_as(&digest(2)));
    let mut last = digest(1);
    last.digest[7] ^= 1;
    assert!(!digest(1).same_as(&last));
}
