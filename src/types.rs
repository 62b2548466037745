use vstd::prelude::*;

use crate::hash::Hash256;

verus! {

/// A group of validators that attests for one shard.
#[derive(Clone, Debug, PartialEq)]
pub struct ShardAndCommittee {
    pub shard: u16,
    pub committee: Vec<usize>,
}

/// What a `ShardAndCommittee` holds, as mathematical values.
pub struct ShardAndCommitteeView {
    pub shard: u16,
    pub committee: Seq<usize>,
}

impl View for ShardAndCommittee {
    type V = ShardAndCommitteeView;

    open spec fn view(&self) -> ShardAndCommitteeView {
        ShardAndCommitteeView { shard: self.shard, committee: self.committee@ }
    }
}

/// The view of one slot of an assignment table.
pub open spec fn slot_view(s: Vec<ShardAndCommittee>) -> Seq<ShardAndCommitteeView> {
    s@.map_values(|c: ShardAndCommittee| c@)
}

/// The view of an assignment table: one sequence of shard committees per slot.
pub open spec fn table_view(t: Seq<Vec<ShardAndCommittee>>) -> Seq<Seq<ShardAndCommitteeView>> {
    t.map_values(|s: Vec<ShardAndCommittee>| slot_view(s))
}

/// A validator's request to join the validator set.
#[derive(Clone, Copy, Debug, PartialEq)]
pub struct ValidatorRegistration {
    pub pubkey: [u8; 48],
    pub withdrawal_shard: u16,
    pub withdrawal_address: [u8; 20],
    pub randao_commitment: Hash256,
}

/// The standing of a validator.
#[derive(Clone, Copy, Debug, PartialEq)]
pub enum ValidatorStatus {
    PendingActivation,
    Active,
    PendingExit,
    PendingWithdraw,
    Withdrawn,
    Penalized,
}

/// A validator as the crystallized state records it.
#[derive(Clone, Copy, Debug, PartialEq)]
pub struct ValidatorRecord {
    pub pubkey: [u8; 48],
    pub withdrawal_shard: u16,
    pub withdrawal_address: [u8; 20],
    pub randao_commitment: Hash256,
    pub randao_last_change: u64,
    pub balance: u64,
    pub status: ValidatorStatus,
    pub exit_slot: u64,
}

/// The last crosslink of a shard.
#[derive(Clone, Copy, Debug, PartialEq)]
pub struct CrosslinkRecord {
    pub recently_changed: bool,
    pub slot: u64,
    pub hash: Hash256,
}

/// An attestation waiting to be processed.
#[derive(Clone, Copy, Debug, PartialEq)]
pub struct AttestationRecord {
    pub slot: u64,
    pub shard_id: u16,
    pub shard_block_hash: Hash256,
    pub justified_slot: u64,
    pub justified_block_hash: Hash256,
}

/// The fast-changing part of the consensus state of one fork.
#[derive(Clone, Debug, PartialEq)]
pub struct ActiveState {
    pub pending_attestations: Vec<AttestationRecord>,
    pub recent_block_hashes: Vec<Hash256>,
}

pub struct ActiveStateView {
    pub pending_attestations: Seq<AttestationRecord>,
    pub recent_block_hashes: Seq<Seq<u8>>,
}

impl View for ActiveState {
    type V = ActiveStateView;

    open spec fn view(&self) -> ActiveStateView {
        ActiveStateView {
            pending_attestations: self.pending_attestations@,
            recent_block_hashes: self.recent_block_hashes@.map_values(|h: Hash256| h@),
        }
    }
}

/// The checkpoint part of the consensus state, which changes once a cycle.
#[derive(Clone, Debug, PartialEq)]
pub struct CrystallizedState {
    pub validator_set_change_slot: u64,
    pub validators: Vec<ValidatorRecord>,
    pub crosslinks: Vec<CrosslinkRecord>,
    pub last_state_recalculation_slot: u64,
    pub last_finalized_slot: u64,
    pub last_justified_slot: u64,
    pub justified_streak: u64,
    pub shard_and_committee_for_slots: Vec<Vec<ShardAndCommittee>>,
    pub deposits_penalized_in_period: Vec<u32>,
    pub validator_set_delta_hash_chain: Hash256,
    pub pre_fork_version: u32,
    pub post_fork_version: u32,
    pub fork_slot_number: u32,
}

/// What a `CrosslinkRecord` holds, with its hash as bytes.
pub struct CrosslinkView {
    pub recently_changed: bool,
    pub slot: u64,
    pub hash: Seq<u8>,
}

impl View for CrosslinkRecord {
    type V = CrosslinkView;

    open spec fn view(&self) -> CrosslinkView {
        CrosslinkView { recently_changed: self.recently_changed, slot: self.slot, hash: self.hash@ }
    }
}

pub struct CrystallizedStateView {
    pub validator_set_change_slot: u64,
    pub validators: Seq<ValidatorRecord>,
    pub crosslinks: Seq<CrosslinkView>,
    pub last_state_recalculation_slot: u64,
    pub last_finalized_slot: u64,
    pub last_justified_slot: u64,
    pub justified_streak: u64,
    pub shard_and_committee_for_slots: Seq<Seq<ShardAndCommitteeView>>,
    pub deposits_penalized_in_period: Seq<u32>,
    pub validator_set_delta_hash_chain: Seq<u8>,
    pub pre_fork_version: u32,
    pub post_fork_version: u32,
    pub fork_slot_number: u32,
}

impl View for CrystallizedState {
    type V = CrystallizedStateView;

    open spec fn view(&self) -> CrystallizedStateView {
        CrystallizedStateView {
            validator_set_change_slot: self.validator_set_change_slot,
            validators: self.validators@,
            crosslinks: self.crosslinks@.map_values(|c: CrosslinkRecord| c@),
            last_state_recalculation_slot: self.last_state_recalculation_slot,
            last_finalized_slot: self.last_finalized_slot,
            last_justified_slot: self.last_justified_slot,
            justified_streak: self.justified_streak,
            shard_and_committee_for_slots: table_view(self.shard_and_committee_for_slots@),
            deposits_penalized_in_period: self.deposits_penalized_in_period@,
            validator_set_delta_hash_chain: self.validator_set_delta_hash_chain@,
            pre_fork_version: self.pre_fork_version,
            post_fork_version: self.post_fork_version,
            fork_slot_number: self.fork_slot_number,
        }
    }
}

/// The configuration a chain is started from.
#[derive(Clone, Debug, PartialEq)]
pub struct ChainConfig {
    pub cycle_length: u8,
    pub deposit_size_gwei: u64,
    pub shard_count: u16,
    pub min_committee_size: u64,
    pub max_validator_churn_quotient: u64,
    pub genesis_time: u64,
    pub slot_duration_millis: u64,
    pub initial_validators: Vec<ValidatorRegistration>,
}

pub struct ChainConfigView {
    pub cycle_length: u8,
    pub deposit_size_gwei: u64,
    pub shard_count: u16,
    pub min_committee_size: u64,
    pub max_validator_churn_quotient: u64,
    pub genesis_time: u64,
    pub slot_duration_millis: u64,
    pub initial_validators: Seq<ValidatorRegistration>,
}

impl View for ChainConfig {
    type V = ChainConfigView;

    open spec fn view(&self) -> ChainConfigView {
        ChainConfigView {
            cycle_length: self.cycle_length,
            deposit_size_gwei: self.deposit_size_gwei,
            shard_count: self.shard_count,
            min_committee_size: self.min_committee_size,
            max_validator_churn_quotient: self.max_validator_churn_quotient,
            genesis_time: self.genesis_time,
            slot_duration_millis: self.slot_duration_millis,
            initial_validators: self.initial_validators@,
        }
    }
}

impl ChainConfig {
    /// The standard configuration, with no initial validators.
    pub fn standard() -> (r: ChainConfig)
        ensures
            r@.cycle_length == 64,
            r@.deposit_size_gwei == 32_000_000_000u64,
            r@.shard_count == 1024,
            r@.min_committee_size == 128,
            r@.max_validator_churn_quotient == 32,
            r@.genesis_time == 1_537_488_655u64,
            r@.slot_duration_millis == 8_000,
            r@.initial_validators.len() == 0,
    {
        ChainConfig {
            cycle_length: 64,
            deposit_size_gwei: 32_000_000_000u64,
            shard_count: 1024,
            min_committee_size: 128,
            max_validator_churn_quotient: 32,
            genesis_time: 1_537_488_655u64,
            slot_duration_millis: 8_000,
            initial_validators: Vec::new(),
        }
    }
}

} // verus!
