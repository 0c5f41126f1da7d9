use shard_prover::sharding::{shard, Event, EventKind, ExecutionRecord, Shard, ShardingConfig};

fn steps(k: u32) -> Vec<Event> {
    (0..k).map(|clk| Event { kind: EventKind::Cpu, clk, value: clk * 3 }).collect()
}

fn record(k: u32) -> ExecutionRecord {
    ExecutionRecord { events: steps(k), public_values: vec![7, 9] }
}

#[test]
fn two_shards_for_half_capacity() {
    let k = 8;
    let config = ShardingConfig::new((k / 2) as usize).unwrap();
    let shards = shard(&record(k), &config);
    assert_eq!(shards.len(), 2);
    assert_eq!(shards[0].index, 0);
    assert_eq!(shards[1].index, 1);
    assert_eq!(shards[0].events, steps(8)[0..4].to_vec());
    assert_eq!(shards[1].events, steps(8)[4..8].to_vec());
    assert_eq!(shards[0].public_values, vec![7, 9]);
    assert_eq!(shards[1].public_values, vec![7, 9]);
}

#[test]
fn shard_indices_count_up_from_zero() {
    for len in 0..40u32 {
        for max in 1..9usize {
            let config = ShardingConfig::new(max).unwrap();
            let shards = shard(&record(len), &config);
            assert_eq!(shards.len(), (len as usize + max - 1) / max);
            for (i, s) in shards.iter().enumerate() {
                assert_eq!(s.index, i);
            }
        }
    }
}

#[test]
fn shards_cover_the_record_in_order() {
    for len in 0..40u32 {
        for max in 1..9usize {
            let config = ShardingConfig::new(max).unwrap();
            let shards = shard(&record(len), &config);
            let mut all = Vec::new();
            for (i, s) in shards.iter().enumerate() {
                assert!(!s.events.is_empty());
                assert!(s.events.len() <= max);
                if i + 1 < shards.len() {
                    assert_eq!(s.events.len(), max);
                }
                all.extend(s.events.iter().copied());
            }
            assert_eq!(all, steps(len));
        }
    }
}

#[test]
fn sharding_again_gives_the_same_shards() {
    let config = ShardingConfig::new(3).unwrap();
    let first = shard(&record(10), &config);
    let second = shard(&record(10), &config);
    assert_eq!(first, second);
}

#[test]
fn last_shard_may_be_short() {
    let config = ShardingConfig::new(4).unwrap();
    let shards = shard(&record(10), &config);
    assert_eq!(shards.len(), 3);
    assert_eq!(shards[2].index, 2);
    assert_eq!(shards[2].events, steps(10)[8..10].to_vec());
}

#[test]
fn empty_record_has_no_shards() {
    let config = ShardingConfig::new(4).unwrap();
    let shards = shard(&record(0), &config);
    assert_eq!(shards, Vec::<Shard>::new());
}

#[test]
fn capacity_larger_than_record_gives_one_shard() {
    let config = ShardingConfig::new(100).unwrap();
    let shards = shard(&record(5), &config);
    assert_eq!(shards.len(), 1);
    assert_eq!(shards[0].events, steps(5));
}

#[test]
fn capacity_zero_is_no_policy() {
    assert_eq!(ShardingConfig::new(0), None);
    assert_eq!(ShardingConfig::new(1).unwrap().max_events(), 1);
    assert_eq!(ShardingConfig::new(usize::MAX).unwrap().max_events(), usize::MAX);
}

#[test]
fn cut_at_a_shard_boundary_gives_the_same_shards() {
    let max = 4;
    let config = ShardingConfig::new(max).unwrap();
    let whole = shard(&record(18), &config);
    let first = ExecutionRecord { events: steps(18)[0..8].to_vec(), public_values: vec![7, 9] };
    let rest = ExecutionRecord { events: steps(18)[8..18].to_vec(), public_values: vec![7, 9] };
    let head = shard(&first, &config);
    let tail = shard(&rest, &config);
    assert_eq!(head.len(), 2);
    assert_eq!(tail.len(), 3);
    let mut joined: Vec<Shard> = Vec::new();
    for s in head.iter() {
        joined.push(s.clone());
    }
    for s in tail.iter() {
        let mut moved = s.clone();
        moved.index += head.len();
        joined.push(moved);
    }
    assert_eq!(joined, whole);
}

#[test]
fn shard_clone_is_equal() {
    let config = ShardingConfig::new(2).unwrap();
    let shards = shard(&record(3), &config);
    assert_eq!(shards[1].clone(), shards[1]);
    assert_eq!(
        shards[1],
        Shard {
            index: 1,
            events: vec![Event { kind: EventKind::Cpu, clk: 2, value: 6 }],
            public_values: vec![7, 9],
        }
    );
}
