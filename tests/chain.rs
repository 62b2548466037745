use beacon_chain::{
    genesis_states, BeaconChain, BeaconChainError, ChainConfig, Hash256, ValidatorRegistration,
};
use std::sync::Arc;

fn registration(seed: u8) -> ValidatorRegistration {
    ValidatorRegistration {
        pubkey: [seed; 48],
        withdrawal_shard: seed as u16,
        withdrawal_address: [seed; 20],
        randao_commitment: Hash256 { bytes: [seed; 32] },
    }
}

fn identity_order(n: usize) -> Vec<usize> {
    (0..n).collect()
}

fn small_config(validators: usize) -> ChainConfig {
    let mut config = ChainConfig::standard();
    config.cycle_length = 4;
    config.shard_count = 4;
    for i in 0..validators {
        config.initial_validators.push(registration(i as u8 + 1));
    }
    config
}

#[test]
fn test_new_chain() {
    let mut config = ChainConfig::standard();
    config.cycle_length = 4;
    config.shard_count = 4;
    let store = ();

    for i in 0..config.cycle_length * 2 {
        config.initial_validators.push(registration(i + 1))
    }
    let order = identity_order(config.initial_validators.len());

    let chain = BeaconChain::new(store, config.clone(), &order).unwrap();
    let (act, cry) = genesis_states(&config, &order).unwrap();

    assert_eq!(chain.last_finalized_slot(), 0);
    assert_eq!(chain.canonical_block_hash(), Hash256::zero());

    let stored_act = chain.active_state(&Hash256::zero()).unwrap();
    assert_eq!(act, *stored_act);

    let stored_cry = chain.crystallized_state(&Hash256::zero()).unwrap();
    assert_eq!(cry, *stored_cry);
}

#[test]
fn empty_validator_set_is_refused() {
    let config = small_config(0);
    let r = BeaconChain::new((), config, &vec![]);
    assert!(matches!(r, Err(BeaconChainError::InsufficientValidators)));
}

#[test]
fn construction_is_deterministic() {
    let config = small_config(8);
    let order: Vec<usize> = vec![3, 1, 4, 0, 5, 2, 7, 6];
    let a = BeaconChain::new((), config.clone(), &order).unwrap();
    let b = BeaconChain::new((), config.clone(), &order).unwrap();
    let z = Hash256::zero();
    assert_eq!(a.active_state(&z), b.active_state(&z));
    assert_eq!(a.crystallized_state(&z), b.crystallized_state(&z));
    let (am, pm) = a.committee_maps_for(&z).unwrap();
    let (bm, bp) = b.committee_maps_for(&z).unwrap();
    assert_eq!(*am, *bm);
    assert_eq!(*pm, *bp);
}

#[test]
fn canonical_index_is_in_range() {
    let chain = BeaconChain::new((), small_config(8), &identity_order(8)).unwrap();
    let heads = chain.head_block_hashes();
    assert_eq!(heads, vec![Hash256::zero()]);
    assert_eq!(chain.canonical_head_index(), 0);
    assert_eq!(chain.canonical_block_hash(), heads[chain.canonical_head_index()]);
}

#[test]
fn genesis_entries_stand_under_zero_hash() {
    let chain = BeaconChain::new((), small_config(8), &identity_order(8)).unwrap();
    let z = Hash256::zero();
    assert!(chain.active_state(&z).is_some());
    assert!(chain.crystallized_state(&z).is_some());
    assert!(chain.committee_maps_for(&z).is_some());
    let other = Hash256 { bytes: [1; 32] };
    assert!(chain.active_state(&other).is_none());
    assert!(chain.crystallized_state(&other).is_none());
    assert!(chain.committee_maps_for(&other).is_none());
}

#[test]
fn committee_maps_are_shared_not_rebuilt() {
    let mut chain = BeaconChain::new((), small_config(8), &identity_order(8)).unwrap();
    let z = Hash256::zero();
    let (a1, p1) = chain.committee_maps_for(&z).unwrap();
    let (a2, p2) = chain.committee_maps_for(&z).unwrap();
    assert!(Arc::ptr_eq(&a1, &a2));
    assert!(Arc::ptr_eq(&p1, &p2));

    let state = chain.crystallized_state(&z).unwrap().clone();
    let (a3, p3) = chain.register_crystallized_state(z, state.clone()).unwrap();
    assert!(Arc::ptr_eq(&a1, &a3));
    assert!(Arc::ptr_eq(&p1, &p3));

    let h = Hash256 { bytes: [9; 32] };
    let (a4, p4) = chain.register_crystallized_state(h, state.clone()).unwrap();
    let (a5, p5) = chain.register_crystallized_state(h, state).unwrap();
    assert!(Arc::ptr_eq(&a4, &a5));
    assert!(Arc::ptr_eq(&p4, &p5));
    assert!(!Arc::ptr_eq(&a1, &a4));
    assert_eq!(*a1, *a4);
}

#[test]
fn rejected_table_leaves_chain_unchanged() {
    let mut chain = BeaconChain::new((), small_config(8), &identity_order(8)).unwrap();
    let z = Hash256::zero();
    let mut state = chain.crystallized_state(&z).unwrap().clone();
    state.shard_and_committee_for_slots[1][0].committee.clear();
    let h = Hash256 { bytes: [7; 32] };
    let r = chain.register_crystallized_state(h, state);
    assert!(matches!(
        r,
        Err(BeaconChainError::UnableToGenerateMaps(
            beacon_chain::AttesterAndProposerMapError::NoValidatorsForShard
        ))
    ));
    assert!(chain.crystallized_state(&h).is_none());
    assert!(chain.committee_maps_for(&h).is_none());
}

#[test]
fn small_configuration_scenario() {
    let config = small_config(8);
    let order = identity_order(8);
    let chain = BeaconChain::new((), config.clone(), &order).unwrap();
    assert_eq!(chain.last_finalized_slot(), 0);
    assert_eq!(chain.canonical_block_hash(), Hash256::zero());
    let (act, cry) = genesis_states(&config, &order).unwrap();
    assert_eq!(chain.active_state(&Hash256::zero()), Some(&act));
    assert_eq!(chain.crystallized_state(&Hash256::zero()), Some(&cry));
}

#[test]
fn empty_committee_fails_construction() {
    // With the standard cycle of 64 slots, 8 validators leave most slots empty.
    let mut config = ChainConfig::standard();
    for i in 0..8u8 {
        config.initial_validators.push(registration(i + 1));
    }
    let r = BeaconChain::new((), config, &identity_order(8));
    assert!(matches!(
        r,
        Err(BeaconChainError::UnableToGenerateMaps(
            beacon_chain::AttesterAndProposerMapError::NoValidatorsForShard
        ))
    ));
}

#[test]
fn bad_configurations_are_invalid_genesis() {
    let mut config = small_config(8);
    config.cycle_length = 0;
    assert_eq!(
        BeaconChain::new((), config, &identity_order(8)).err(),
        Some(BeaconChainError::InvalidGenesis)
    );

    let mut config = small_config(8);
    config.shard_count = 3;
    assert_eq!(
        BeaconChain::new((), config, &identity_order(8)).err(),
        Some(BeaconChainError::InvalidGenesis)
    );

    let mut config = small_config(8);
    config.min_committee_size = 0;
    assert_eq!(
        BeaconChain::new((), config, &identity_order(8)).err(),
        Some(BeaconChainError::InvalidGenesis)
    );

    let config = small_config(8);
    assert_eq!(
        BeaconChain::new((), config, &vec![0, 1, 2, 3, 4, 5, 6, 6]).err(),
        Some(BeaconChainError::InvalidGenesis)
    );
}
