use beacon_chain::{
    genesis_states, generate_attester_and_proposer_maps, AttesterAndProposerMapError,
    ChainConfig, Hash256, ShardAndCommittee, ValidatorAssignmentError, ValidatorRegistration,
};

fn sc(shard: u16, committee: Vec<usize>) -> ShardAndCommittee {
    ShardAndCommittee { shard, committee }
}

#[test]
fn maps_follow_table_order() {
    let table = vec![
        vec![sc(2, vec![5, 1]), sc(3, vec![4]), sc(2, vec![7])],
        vec![sc(0, vec![0, 6])],
    ];
    let (a, p) = generate_attester_and_proposer_maps(&table, 10).unwrap();
    assert_eq!(a.get(10, 2), Some(vec![5, 1, 7]));
    assert_eq!(a.get(10, 3), Some(vec![4]));
    assert_eq!(a.get(11, 0), Some(vec![0, 6]));
    assert_eq!(a.get(10, 0), None);
    assert_eq!(a.get(12, 0), None);
    assert_eq!(a.get(9, 2), None);
    assert_eq!(p.get(10), Some(5));
    assert_eq!(p.get(11), Some(0));
    assert_eq!(p.get(9), None);
    assert_eq!(p.get(12), None);
}

#[test]
fn empty_table_gives_empty_maps() {
    let (a, p) = generate_attester_and_proposer_maps(&vec![], u64::MAX).unwrap();
    assert_eq!(a.get(0, 0), None);
    assert_eq!(p.get(0), None);
}

#[test]
fn slot_without_shards_is_rejected() {
    let table = vec![vec![sc(0, vec![1])], vec![]];
    assert_eq!(
        generate_attester_and_proposer_maps(&table, 0).err(),
        Some(AttesterAndProposerMapError::NoShardsForSlot)
    );
}

#[test]
fn shard_without_validators_is_rejected() {
    let table = vec![vec![sc(0, vec![1]), sc(1, vec![])], vec![]];
    assert_eq!(
        generate_attester_and_proposer_maps(&table, 0).err(),
        Some(AttesterAndProposerMapError::NoValidatorsForShard)
    );
}

#[test]
fn slots_past_the_last_slot_number_are_rejected() {
    let table = vec![vec![sc(0, vec![1])], vec![sc(0, vec![2])]];
    assert_eq!(
        generate_attester_and_proposer_maps(&table, u64::MAX).err(),
        Some(AttesterAndProposerMapError::SlotOutOfRange)
    );
    assert!(generate_attester_and_proposer_maps(&table, u64::MAX - 1).is_ok());
}

fn config_with(n: u8) -> ChainConfig {
    let mut config = ChainConfig::standard();
    config.cycle_length = 4;
    config.shard_count = 4;
    for i in 0..n {
        config.initial_validators.push(ValidatorRegistration {
            pubkey: [i; 48],
            withdrawal_shard: 0,
            withdrawal_address: [i; 20],
            randao_commitment: Hash256::zero(),
        });
    }
    config
}

#[test]
fn genesis_splits_validators_over_two_cycles() {
    let config = config_with(8);
    let order: Vec<usize> = vec![7, 6, 5, 4, 3, 2, 1, 0];
    let (act, cry) = genesis_states(&config, &order).unwrap();
    assert_eq!(act.recent_block_hashes, vec![Hash256::zero(); 4]);
    assert!(act.pending_attestations.is_empty());
    assert_eq!(cry.validators.len(), 8);
    assert_eq!(cry.validators[3].pubkey, [3u8; 48]);
    assert_eq!(cry.validators[3].balance, 32_000_000_000);
    assert_eq!(cry.crosslinks.len(), 4);
    assert_eq!(cry.shard_and_committee_for_slots.len(), 8);
    assert_eq!(cry.shard_and_committee_for_slots[0], vec![sc(0, vec![7, 6])]);
    assert_eq!(cry.shard_and_committee_for_slots[1], vec![sc(0, vec![5, 4])]);
    assert_eq!(cry.shard_and_committee_for_slots[5], vec![sc(0, vec![5, 4])]);
    assert_eq!(cry.last_finalized_slot, 0);

    let (a, p) = generate_attester_and_proposer_maps(&cry.shard_and_committee_for_slots, 0).unwrap();
    assert_eq!(a.get(0, 0), Some(vec![7, 6]));
    assert_eq!(a.get(6, 0), Some(vec![3, 2]));
    assert_eq!(p.get(3), Some(1));
}

#[test]
fn many_validators_fill_several_committees() {
    let mut config = config_with(0);
    config.cycle_length = 2;
    config.shard_count = 8;
    config.min_committee_size = 1;
    for i in 0..8u8 {
        config.initial_validators.push(ValidatorRegistration {
            pubkey: [i; 48],
            withdrawal_shard: 0,
            withdrawal_address: [0; 20],
            randao_commitment: Hash256::zero(),
        });
    }
    // 8 validators over 2 slots: 8 / 2 / 2 + 1 = 3 committees per slot.
    let order: Vec<usize> = (0..8).collect();
    let (_, cry) = genesis_states(&config, &order).unwrap();
    assert_eq!(
        cry.shard_and_committee_for_slots[0],
        vec![sc(0, vec![0]), sc(1, vec![1]), sc(2, vec![2, 3])]
    );
    assert_eq!(
        cry.shard_and_committee_for_slots[1],
        vec![sc(3, vec![4]), sc(4, vec![5]), sc(5, vec![6, 7])]
    );
}

#[test]
fn genesis_errors() {
    let mut config = config_with(2);
    config.cycle_length = 0;
    assert_eq!(
        genesis_states(&config, &vec![0, 1]).err(),
        Some(ValidatorAssignmentError::ZeroCycleLength)
    );
    let mut config = config_with(2);
    config.shard_count = 2;
    assert_eq!(
        genesis_states(&config, &vec![0, 1]).err(),
        Some(ValidatorAssignmentError::TooFewShards)
    );
    let mut config = config_with(2);
    config.min_committee_size = 0;
    assert_eq!(
        genesis_states(&config, &vec![0, 1]).err(),
        Some(ValidatorAssignmentError::ZeroCommitteeSize)
    );
    let config = config_with(2);
    assert_eq!(
        genesis_states(&config, &vec![0, 2]).err(),
        Some(ValidatorAssignmentError::InvalidValidatorOrder)
    );
    assert_eq!(
        genesis_states(&config, &vec![0]).err(),
        Some(ValidatorAssignmentError::InvalidValidatorOrder)
    );
}

#[test]
fn zero_hash_is_zero() {
    assert!(Hash256::zero().is_zero());
    assert!(!Hash256 { bytes: [1; 32] }.is_zero());
    assert_eq!(Hash256::zero(), Hash256 { bytes: [0; 32] });
    assert_ne!(Hash256::zero(), Hash256 { bytes: [2; 32] });
}
