//! Chain aggregate of a proof-of-stake beacon chain: genesis derivation,
//! attester and proposer maps with their per-state cache, and the store of
//! fork states.

pub mod chain;
pub mod genesis;
pub mod hash;
pub mod maps;
pub mod types;

pub use chain::{BeaconChain, BeaconChainError};
pub use genesis::{genesis_states, ValidatorAssignmentError};
pub use hash::Hash256;
pub use maps::{
    generate_attester_and_proposer_maps, AttesterAndProposerMapError, AttesterMap, ProposerMap,
};
pub use types::{
    ActiveState, ChainConfig, CrystallizedState, ShardAndCommittee, ValidatorRegistration,
};
