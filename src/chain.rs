use vstd::prelude::*;

use std::sync::Arc;

use crate::genesis::{
    assignment_error, genesis_active, genesis_crystallized, genesis_states, genesis_table,
};
use crate::hash::{zero_hash, Hash256};
use crate::maps::{
    attester_model, generate_attester_and_proposer_maps, proposer_model, table_error,
    AttesterAndProposerMapError, AttesterMap, ProposerMap,
};
use crate::types::{
    ActiveState, ActiveStateView, ChainConfig, ChainConfigView, CrystallizedState,
    CrystallizedStateView,
};

verus! {

/// Why a chain could not be built or extended.
#[derive(Debug, PartialEq)]
pub enum BeaconChainError {
    /// The validators of the configuration cannot be assigned to committees.
    InvalidGenesis,
    /// The configuration has no initial validator.
    InsufficientValidators,
    /// The committee maps of an assignment table could not be built, for the
    /// reason held.
    UnableToGenerateMaps(AttesterAndProposerMapError),
    /// A store handle could not be opened or used; the text is diagnostic.
    DBError(String),
}

impl From<AttesterAndProposerMapError> for BeaconChainError {
    fn from(e: AttesterAndProposerMapError) -> (r: BeaconChainError) {
        BeaconChainError::UnableToGenerateMaps(e)
    }
}

impl vstd::std_specs::convert::FromSpecImpl<AttesterAndProposerMapError> for BeaconChainError {
    open spec fn obeys_from_spec() -> bool {
        true
    }

    open spec fn from_spec(e: AttesterAndProposerMapError) -> BeaconChainError {
        BeaconChainError::UnableToGenerateMaps(e)
    }
}

/// Relies on `Arc::clone`: the new handle points at the value of the old one.
#[verifier::external_body]
fn share<T>(a: &Arc<T>) -> (r: Arc<T>)
    ensures
        r == *a,
{
    Arc::clone(a)
}

/// The attester and proposer maps of a crystallized state, as views.
pub type CommitteeMapsView = (Map<(u64, u16), Seq<usize>>, Map<u64, usize>);

/// The committee maps of a crystallized state: those of its assignment table,
/// whose first slot is its last recalculation slot.
pub open spec fn maps_model(c: CrystallizedStateView) -> CommitteeMapsView {
    (
        attester_model(c.shard_and_committee_for_slots, c.last_state_recalculation_slot as int),
        proposer_model(c.shard_and_committee_for_slots, c.last_state_recalculation_slot as int),
    )
}

/// A chain tip, its active state, and the hash of its crystallized state.
struct ForkEntry {
    head: Hash256,
    active: ActiveState,
    crystallized_hash: Hash256,
}

/// A crystallized state under its hash, with the committee maps built from it,
/// shared by every fork that refers to that hash.
struct CrystallizedEntry {
    hash: Hash256,
    state: CrystallizedState,
    attester_map: Arc<AttesterMap>,
    proposer_map: Arc<ProposerMap>,
}

/// All live forks of a beacon chain, their states, and the committee maps of
/// each crystallized state.
pub struct BeaconChain<S> {
    last_finalized_slot: u64,
    forks: Vec<ForkEntry>,
    canonical_head_block_hash: usize,
    crystallized_states: Vec<CrystallizedEntry>,
    store: S,
    config: ChainConfig,
}

impl<S> BeaconChain<S> {
    /// The tips of all forks, in order.
    pub closed spec fn heads(&self) -> Seq<Seq<u8>> {
        self.forks@.map_values(|f: ForkEntry| f.head@)
    }

    /// The index of the canonical tip among `heads`.
    pub closed spec fn canonical_index(&self) -> int {
        self.canonical_head_block_hash as int
    }

    pub closed spec fn spec_last_finalized_slot(&self) -> u64 {
        self.last_finalized_slot
    }

    pub closed spec fn spec_config(&self) -> ChainConfigView {
        self.config@
    }

    pub closed spec fn spec_store(&self) -> S {
        self.store
    }

    /// The active state of each tip.
    pub closed spec fn active_states(&self) -> Map<Seq<u8>, ActiveStateView> {
        Map::new(
            |k: Seq<u8>| exists|i: int| 0 <= i < self.forks@.len() && #[trigger] self.forks@[i].head@ == k,
            |k: Seq<u8>|
                self.forks@[choose|i: int| 0 <= i < self.forks@.len() && #[trigger] self.forks@[i].head@ == k].active@,
        )
    }

    /// The hash of the crystallized state of each tip.
    pub closed spec fn fork_crystallized(&self) -> Map<Seq<u8>, Seq<u8>> {
        Map::new(
            |k: Seq<u8>| exists|i: int| 0 <= i < self.forks@.len() && #[trigger] self.forks@[i].head@ == k,
            |k: Seq<u8>|
                self.forks@[choose|i: int| 0 <= i < self.forks@.len() && #[trigger] self.forks@[i].head@ == k].crystallized_hash@,
        )
    }

    /// Each crystallized state under its hash.
    pub closed spec fn crystallized_states(&self) -> Map<Seq<u8>, CrystallizedStateView> {
        Map::new(
            |k: Seq<u8>|
                exists|i: int|
                    0 <= i < self.crystallized_states@.len() && #[trigger] self.crystallized_states@[i].hash@ == k,
            |k: Seq<u8>|
                self.crystallized_states@[choose|i: int|
                    0 <= i < self.crystallized_states@.len() && #[trigger] self.crystallized_states@[i].hash@
                        == k].state@,
        )
    }

    /// The committee maps cached under each crystallized state hash.
    pub closed spec fn committee_maps(&self) -> Map<Seq<u8>, CommitteeMapsView> {
        Map::new(
            |k: Seq<u8>|
                exists|i: int|
                    0 <= i < self.crystallized_states@.len() && #[trigger] self.crystallized_states@[i].hash@ == k,
            |k: Seq<u8>|
                {
                    let e = self.crystallized_states@[choose|i: int|
                        0 <= i < self.crystallized_states@.len()
                            && #[trigger] self.crystallized_states@[i].hash@ == k];
                    (e.attester_map@, e.proposer_map@)
                },
        )
    }

    /// The invariants of a chain: tips and crystallized hashes are unique, the
    /// canonical index is in range, every tip has its states, every cached map
    /// pair is the one its crystallized state yields, and there are validators.
    pub closed spec fn wf(&self) -> bool {
        &&& forall|i: int, j: int|
            0 <= i < self.forks@.len() && 0 <= j < self.forks@.len() && i != j
                ==> #[trigger] self.forks@[i].head@ != #[trigger] self.forks@[j].head@
        &&& forall|i: int, j: int|
            0 <= i < self.crystallized_states@.len() && 0 <= j < self.crystallized_states@.len() && i != j
                ==> #[trigger] self.crystallized_states@[i].hash@ != #[trigger] self.crystallized_states@[j].hash@
        &&& 0 <= self.canonical_head_block_hash < self.forks@.len()
        &&& forall|i: int|
            0 <= i < self.forks@.len() ==> exists|k: int|
                0 <= k < self.crystallized_states@.len() && self.crystallized_states@[k].hash@
                    == (#[trigger] self.forks@[i]).crystallized_hash@
        &&& forall|k: int|
            0 <= k < self.crystallized_states@.len() ==> ((#[trigger] self.crystallized_states@[k]).attester_map@,
                self.crystallized_states@[k].proposer_map@) == maps_model(self.crystallized_states@[k].state@)
        &&& self.config@.initial_validators.len() > 0
    }
}


/// Whether `r` is the outcome that a chain built from `config` and
/// `order` must have: which error, or which genesis population.
pub open spec fn new_outcome<S>(
    config: ChainConfigView,
    order: Seq<usize>,
    store: S,
    r: Result<BeaconChain<S>, BeaconChainError>,
) -> bool {
    if config.initial_validators.len() == 0 {
        r matches Err(BeaconChainError::InsufficientValidators)
    } else if assignment_error(config, order) is Some {
        r matches Err(BeaconChainError::InvalidGenesis)
    } else if table_error(genesis_table(config, order), 0) is Some {
        r matches Err(BeaconChainError::UnableToGenerateMaps(e)) && table_error(
            genesis_table(config, order),
            0,
        ) == Some(e)
    } else {
        match r {
            Ok(chain) => {
                &&& chain.wf()
                &&& chain.heads() == seq![zero_hash()]
                &&& chain.canonical_index() == 0
                &&& chain.spec_last_finalized_slot() == 0
                &&& chain.spec_config() == config
                &&& chain.spec_store() == store
                &&& chain.active_states() == map![zero_hash() => genesis_active(config)]
                &&& chain.fork_crystallized() == map![zero_hash() => zero_hash()]
                &&& chain.crystallized_states() == map![zero_hash() => genesis_crystallized(config, order)]
                &&& chain.committee_maps() == map![zero_hash() => maps_model(genesis_crystallized(config, order))]
            },
            Err(_) => false,
        }
    }
}

impl<S> BeaconChain<S> {
    /// Starts a chain at genesis.
    ///
    /// Fails with `InsufficientValidators` when the configuration has no
    /// validator, with `InvalidGenesis` when its validators cannot be assigned
    /// to committees, and with `UnableToGenerateMaps` when the genesis
    /// assignment table has a slot without shards or a shard without
    /// validators. Otherwise the only tip is the zero hash, and the genesis
    /// states and their committee maps stand under the zero hash.
    pub fn new(store: S, config: ChainConfig, validator_order: &Vec<usize>) -> (r: Result<
        Self,
        BeaconChainError,
    >)
        ensures
            new_outcome(config@, validator_order@, store, r),
    {
        if config.initial_validators.len() == 0 {
            return Err(BeaconChainError::InsufficientValidators);
        }
        let (active_state, crystallized_state) = match genesis_states(&config, validator_order) {
            Ok(states) => states,
            Err(_) => {
                return Err(BeaconChainError::InvalidGenesis);
            },
        };
        let (attester_map, proposer_map) = match generate_attester_and_proposer_maps(
            &crystallized_state.shard_and_committee_for_slots,
            0,
        ) {
            Ok(maps) => maps,
            Err(e) => {
                return Err(BeaconChainError::from(e));
            },
        };
        let zero = Hash256::zero();
        let mut forks: Vec<ForkEntry> = Vec::new();
        forks.push(ForkEntry { head: zero, active: active_state, crystallized_hash: zero });
        let mut crystallized_states: Vec<CrystallizedEntry> = Vec::new();
        crystallized_states.push(
            CrystallizedEntry {
                hash: zero,
                state: crystallized_state,
                attester_map: Arc::new(attester_map),
                proposer_map: Arc::new(proposer_map),
            },
        );
        let chain = BeaconChain {
            last_finalized_slot: 0,
            forks,
            canonical_head_block_hash: 0,
            crystallized_states,
            store,
            config,
        };
        proof {
            let z = zero_hash();
            assert(chain.forks@[0].head@ == z);
            assert(chain.crystallized_states@[0].hash@ == z);
            assert(chain.heads() =~= seq![z]);
            assert(chain.active_states() =~= map![z => genesis_active(chain.config@)]);
            assert(chain.fork_crystallized() =~= map![z => z]);
            assert(chain.crystallized_states() =~= map![z => genesis_crystallized(chain.config@, validator_order@)]);
            assert(chain.committee_maps() =~= map![z => maps_model(genesis_crystallized(chain.config@, validator_order@))]);
        }
        Ok(chain)
    }
}


impl<S> BeaconChain<S> {
    /// The tip of the canonical fork.
    pub fn canonical_block_hash(&self) -> (r: Hash256)
        requires
            self.wf(),
        ensures
            0 <= self.canonical_index() < self.heads().len(),
            r@ == self.heads()[self.canonical_index()],
    {
        self.forks[self.canonical_head_block_hash].head
    }

    /// The last slot that is final on every fork.
    pub fn last_finalized_slot(&self) -> (r: u64)
        ensures
            r == self.spec_last_finalized_slot(),
    {
        self.last_finalized_slot
    }

    /// The index of the canonical tip among the tips.
    pub fn canonical_head_index(&self) -> (r: usize)
        ensures
            r == self.canonical_index(),
    {
        self.canonical_head_block_hash
    }

    /// The tips of all forks, in order.
    pub fn head_block_hashes(&self) -> (r: Vec<Hash256>)
        ensures
            r@.map_values(|h: Hash256| h@) == self.heads(),
    {
        let mut r: Vec<Hash256> = Vec::new();
        let mut i: usize = 0;
        while i < self.forks.len()
            invariant
                0 <= i <= self.forks.len(),
                r@.len() == i,
                forall|k: int| 0 <= k < i ==> (#[trigger] r@[k])@ == self.forks@[k].head@,
            decreases self.forks.len() - i,
        {
            r.push(self.forks[i].head);
            i = i + 1;
        }
        assert(r@.map_values(|h: Hash256| h@) =~= self.heads());
        r
    }

    /// The configuration the chain was started from.
    pub fn config(&self) -> (r: &ChainConfig)
        ensures
            r@ == self.spec_config(),
    {
        &self.config
    }

    /// The store handles of the chain.
    pub fn store(&self) -> (r: &S)
        ensures
            *r == self.spec_store(),
    {
        &self.store
    }

    /// The position of the fork whose tip is `h`.
    fn find_fork(&self, h: &Hash256) -> (r: Option<usize>)
        ensures
            match r {
                Some(i) => i < self.forks@.len() && self.forks@[i as int].head@ == h@,
                None => forall|i: int| 0 <= i < self.forks@.len() ==> #[trigger] self.forks@[i].head@ != h@,
            },
    {
        let mut i: usize = 0;
        while i < self.forks.len()
            invariant
                0 <= i <= self.forks.len(),
                forall|k: int| 0 <= k < i ==> #[trigger] self.forks@[k].head@ != h@,
            decreases self.forks.len() - i,
        {
            if self.forks[i].head == *h {
                return Some(i);
            }
            i = i + 1;
        }
        None
    }

    /// The position of the crystallized state whose hash is `h`.
    fn find_crystallized(&self, h: &Hash256) -> (r: Option<usize>)
        ensures
            match r {
                Some(i) => i < self.crystallized_states@.len() && self.crystallized_states@[i as int].hash@ == h@,
                None => forall|i: int|
                    0 <= i < self.crystallized_states@.len() ==> #[trigger] self.crystallized_states@[i].hash@ != h@,
            },
    {
        let mut i: usize = 0;
        while i < self.crystallized_states.len()
            invariant
                0 <= i <= self.crystallized_states.len(),
                forall|k: int| 0 <= k < i ==> #[trigger] self.crystallized_states@[k].hash@ != h@,
            decreases self.crystallized_states.len() - i,
        {
            if self.crystallized_states[i].hash == *h {
                return Some(i);
            }
            i = i + 1;
        }
        None
    }

    /// The active state of the tip `h`.
    pub fn active_state(&self, h: &Hash256) -> (r: Option<&ActiveState>)
        requires
            self.wf(),
        ensures
            match r {
                Some(a) => self.active_states().contains_key(h@) && a@ == self.active_states()[h@],
                None => !self.active_states().contains_key(h@),
            },
    {
        match self.find_fork(h) {
            Some(i) => {
                proof {
                    let j = choose|j: int| 0 <= j < self.forks@.len() && #[trigger] self.forks@[j].head@ == h@;
                    assert(j == i);
                }
                Some(&self.forks[i].active)
            },
            None => None,
        }
    }

    /// The crystallized state stored under `h`.
    pub fn crystallized_state(&self, h: &Hash256) -> (r: Option<&CrystallizedState>)
        requires
            self.wf(),
        ensures
            match r {
                Some(c) => self.crystallized_states().contains_key(h@) && c@ == self.crystallized_states()[h@],
                None => !self.crystallized_states().contains_key(h@),
            },
    {
        match self.find_crystallized(h) {
            Some(i) => {
                proof {
                    let j = choose|j: int|
                        0 <= j < self.crystallized_states@.len() && #[trigger] self.crystallized_states@[j].hash@ == h@;
                    assert(j == i);
                }
                Some(&self.crystallized_states[i].state)
            },
            None => None,
        }
    }

    /// Shared handles on the committee maps cached under the crystallized
    /// state hash `h`.
    pub fn committee_maps_for(&self, h: &Hash256) -> (r: Option<(Arc<AttesterMap>, Arc<ProposerMap>)>)
        requires
            self.wf(),
        ensures
            match r {
                Some((a, p)) => self.committee_maps().contains_key(h@) && (a@, p@) == self.committee_maps()[h@],
                None => !self.committee_maps().contains_key(h@),
            },
    {
        match self.find_crystallized(h) {
            Some(i) => {
                proof {
                    let j = choose|j: int|
                        0 <= j < self.crystallized_states@.len() && #[trigger] self.crystallized_states@[j].hash@ == h@;
                    assert(j == i);
                }
                let e = &self.crystallized_states[i];
                Some((share(&e.attester_map), share(&e.proposer_map)))
            },
            None => None,
        }
    }
}


impl<S> BeaconChain<S> {
    /// Registers the crystallized state `state` under its hash `h` and hands
    /// out shared handles on its committee maps.
    ///
    /// The maps are built at most once per hash: when `h` is already known,
    /// the cached maps are handed out again and nothing changes. Otherwise the
    /// maps are built from the state's assignment table, starting at its last
    /// recalculation slot; if the table is rejected, nothing changes.
    pub fn register_crystallized_state(&mut self, h: Hash256, state: CrystallizedState) -> (r: Result<
        (Arc<AttesterMap>, Arc<ProposerMap>),
        BeaconChainError,
    >)
        requires
            old(self).wf(),
        ensures
            final(self).wf(),
            final(self).heads() == old(self).heads(),
            final(self).canonical_index() == old(self).canonical_index(),
            final(self).spec_last_finalized_slot() == old(self).spec_last_finalized_slot(),
            final(self).spec_config() == old(self).spec_config(),
            final(self).spec_store() == old(self).spec_store(),
            final(self).active_states() == old(self).active_states(),
            final(self).fork_crystallized() == old(self).fork_crystallized(),
            old(self).committee_maps().contains_key(h@) ==> {
                &&& r matches Ok((a, p)) && (a@, p@) == old(self).committee_maps()[h@]
                &&& final(self).crystallized_states() == old(self).crystallized_states()
                &&& final(self).committee_maps() == old(self).committee_maps()
            },
            !old(self).committee_maps().contains_key(h@) ==> match table_error(
                state@.shard_and_committee_for_slots,
                state@.last_state_recalculation_slot as int,
            ) {
                Some(e) => {
                    &&& r matches Err(BeaconChainError::UnableToGenerateMaps(x)) && x == e
                    &&& final(self).crystallized_states() == old(self).crystallized_states()
                    &&& final(self).committee_maps() == old(self).committee_maps()
                },
                None => {
                    &&& r matches Ok((a, p)) && (a@, p@) == maps_model(state@)
                    &&& final(self).crystallized_states() == old(self).crystallized_states().insert(h@, state@)
                    &&& final(self).committee_maps() == old(self).committee_maps().insert(h@, maps_model(state@))
                },
            },
    {
        if let Some(i) = self.find_crystallized(&h) {
            proof {
                let j = choose|j: int|
                    0 <= j < self.crystallized_states@.len() && #[trigger] self.crystallized_states@[j].hash@ == h@;
                assert(j == i);
            }
            let e = &self.crystallized_states[i];
            return Ok((share(&e.attester_map), share(&e.proposer_map)));
        }
        let (attester_map, proposer_map) = match generate_attester_and_proposer_maps(
            &state.shard_and_committee_for_slots,
            state.last_state_recalculation_slot,
        ) {
            Ok(maps) => maps,
            Err(e) => {
                return Err(BeaconChainError::from(e));
            },
        };
        let attester_map = Arc::new(attester_map);
        let proposer_map = Arc::new(proposer_map);
        let a = share(&attester_map);
        let p = share(&proposer_map);
        let ghost pre = *self;
        let ghost entry = CrystallizedEntry { hash: h, state, attester_map, proposer_map };
        self.crystallized_states.push(CrystallizedEntry { hash: h, state, attester_map, proposer_map });
        proof {
            let n = pre.crystallized_states@.len() as int;
            assert(self.crystallized_states@ == pre.crystallized_states@.push(entry));
            assert(self.crystallized_states@[n].hash@ == h@);
            assert forall|k: Seq<u8>|
                #![trigger self.crystallized_states().contains_key(k)]
                #![trigger pre.crystallized_states().contains_key(k)]
                self.crystallized_states().contains_key(k) == (pre.crystallized_states().contains_key(k) || k == h@)
                && (k != h@ && pre.crystallized_states().contains_key(k) ==> {
                    &&& self.crystallized_states()[k] == pre.crystallized_states()[k]
                    &&& self.committee_maps()[k] == pre.committee_maps()[k]
                }) by {
                if pre.crystallized_states().contains_key(k) {
                    let j = choose|j: int|
                        0 <= j < n && #[trigger] pre.crystallized_states@[j].hash@ == k;
                    assert(self.crystallized_states@[j] == pre.crystallized_states@[j]);
                    if k != h@ {
                        let j2 = choose|j2: int|
                            0 <= j2 < n + 1 && #[trigger] self.crystallized_states@[j2].hash@ == k;
                        if j2 < n {
                            assert(self.crystallized_states@[j2] == pre.crystallized_states@[j2]);
                        }
                    }
                }
                if self.crystallized_states().contains_key(k) && k != h@ {
                    let j = choose|j: int|
                        0 <= j < n + 1 && #[trigger] self.crystallized_states@[j].hash@ == k;
                    assert(j < n);
                    assert(self.crystallized_states@[j] == pre.crystallized_states@[j]);
                }
            }
            let j = choose|j: int|
                0 <= j < n + 1 && #[trigger] self.crystallized_states@[j].hash@ == h@;
            if j < n {
                assert(self.crystallized_states@[j] == pre.crystallized_states@[j]);
                assert(false);
            }
            assert(self.crystallized_states() =~= pre.crystallized_states().insert(h@, state@));
            assert(self.committee_maps() =~= pre.committee_maps().insert(h@, maps_model(state@)));
            assert(self.active_states() =~= pre.active_states());
            assert(self.fork_crystallized() =~= pre.fork_crystallized());
            assert forall|f: int| 0 <= f < self.forks@.len() implies exists|k: int|
                0 <= k < self.crystallized_states@.len() && self.crystallized_states@[k].hash@
                    == (#[trigger] self.forks@[f]).crystallized_hash@ by {
                let k = choose|k: int|
                    0 <= k < n && pre.crystallized_states@[k].hash@ == pre.forks@[f].crystallized_hash@;
                assert(self.crystallized_states@[k] == pre.crystallized_states@[k]);
            }
            assert forall|x: int, y: int|
                0 <= x < n + 1 && 0 <= y < n + 1 && x != y
                    implies #[trigger] self.crystallized_states@[x].hash@ != #[trigger] self.crystallized_states@[y].hash@ by {
                if x < n && y < n {
                    assert(self.crystallized_states@[x] == pre.crystallized_states@[x]);
                    assert(self.crystallized_states@[y] == pre.crystallized_states@[y]);
                } else if x < n {
                    assert(self.crystallized_states@[x] == pre.crystallized_states@[x]);
                } else if y < n {
                    assert(self.crystallized_states@[y] == pre.crystallized_states@[y]);
                }
            }
        }
        Ok((a, p))
    }
}


/// Starting a chain twice from the same configuration and validator order
/// gives the same tips and the same genesis states and committee maps.
pub proof fn lemma_genesis_deterministic<S>(
    config1: ChainConfig,
    config2: ChainConfig,
    order1: Vec<usize>,
    order2: Vec<usize>,
    store1: S,
    store2: S,
    chain1: BeaconChain<S>,
    chain2: BeaconChain<S>,
)
    requires
        config1@ == config2@,
        order1@ == order2@,
        new_outcome(config1@, order1@, store1, Ok(chain1)),
        new_outcome(config2@, order2@, store2, Ok(chain2)),
    ensures
        chain1.heads() == chain2.heads(),
        chain1.canonical_index() == chain2.canonical_index(),
        chain1.spec_last_finalized_slot() == chain2.spec_last_finalized_slot(),
        chain1.active_states() == chain2.active_states(),
        chain1.crystallized_states() == chain2.crystallized_states(),
        chain1.committee_maps() == chain2.committee_maps(),
{
}

/// The canonical index of a well-formed chain is a position among its tips.
pub proof fn lemma_canonical_in_range<S>(chain: BeaconChain<S>)
    requires
        chain.wf(),
    ensures
        0 <= chain.canonical_index() < chain.heads().len(),
{
}

/// Every tip of a well-formed chain has an active state, and the
/// crystallized state it refers to is stored with its committee maps.
pub proof fn lemma_tips_resolve<S>(chain: BeaconChain<S>, i: int)
    requires
        chain.wf(),
        0 <= i < chain.heads().len(),
    ensures
        chain.active_states().contains_key(chain.heads()[i]),
        chain.fork_crystallized().contains_key(chain.heads()[i]),
        chain.crystallized_states().contains_key(chain.fork_crystallized()[chain.heads()[i]]),
        chain.committee_maps().contains_key(chain.fork_crystallized()[chain.heads()[i]]),
{
    let h = chain.heads()[i];
    assert(chain.forks@[i].head@ == h);
    let j = choose|j: int| 0 <= j < chain.forks@.len() && #[trigger] chain.forks@[j].head@ == h;
    assert(j == i);
    let k = choose|k: int|
        0 <= k < chain.crystallized_states@.len() && chain.crystallized_states@[k].hash@
            == chain.forks@[i].crystallized_hash@;
    assert(chain.crystallized_states@[k].hash@ == chain.forks@[i].crystallized_hash@);
}

/// Every crystallized state of a well-formed chain has its committee maps
/// cached, and they are the maps its assignment table yields.
pub proof fn lemma_cache_complete<S>(chain: BeaconChain<S>, h: Seq<u8>)
    requires
        chain.wf(),
        chain.crystallized_states().contains_key(h),
    ensures
        chain.committee_maps().contains_key(h),
        chain.committee_maps()[h] == maps_model(chain.crystallized_states()[h]),
{
}

/// A chain that was started has the zero hash as a tip, and its genesis
/// states and committee maps stand under the zero hash.
pub proof fn lemma_genesis_population<S>(config: ChainConfig, order: Vec<usize>, store: S, chain: BeaconChain<S>)
    requires
        new_outcome(config@, order@, store, Ok(chain)),
    ensures
        chain.heads().contains(zero_hash()),
        chain.active_states().contains_key(zero_hash()),
        chain.crystallized_states().contains_key(zero_hash()),
        chain.committee_maps().contains_key(zero_hash()),
{
    assert(chain.heads()[0] == zero_hash());
}

} // verus!
