use vstd::prelude::*;

use crate::hash::{zero_hash, Hash256};
use crate::types::{
    slot_view, table_view, ActiveState, ActiveStateView, ChainConfig, ChainConfigView,
    CrosslinkRecord, CrosslinkView, CrystallizedState, CrystallizedStateView, ShardAndCommittee,
    ShardAndCommitteeView, ValidatorRecord, ValidatorRegistration, ValidatorStatus,
};

verus! {

/// The fork version of a new chain.
pub const INITIAL_FORK_VERSION: u32 = 0;

/// Why a configuration cannot be assigned to committees.
#[derive(Clone, Copy, Debug, PartialEq, Eq, Structural)]
pub enum ValidatorAssignmentError {
    /// The cycle has no slot.
    ZeroCycleLength,
    /// There are fewer shards than slots in a cycle.
    TooFewShards,
    /// The minimum committee size is zero.
    ZeroCommitteeSize,
    /// The validator order is not an ordering of the validators.
    InvalidValidatorOrder,
}

/// Whether `order` lists each of the indices `0..n` exactly once.
pub open spec fn is_ordering(order: Seq<usize>, n: int) -> bool {
    &&& order.len() == n
    &&& forall|a: int| 0 <= a < n ==> #[trigger] order[a] < n
    &&& forall|a: int, b: int| 0 <= a < n && 0 <= b < n && a != b ==> #[trigger] order[a] != #[trigger] order[b]
}

/// The doubling of the slots per committee, while validators are too few to fill
/// the minimum committees of a cycle.
pub open spec fn spread(n: int, cl: int, mcs: int, spc: int) -> int
    decreases (if spc >= 1 && spc < cl { cl - spc } else { 0 }),
{
    if spc >= 1 && n * spc < cl * mcs && spc < cl {
        spread(n, cl, mcs, spc * 2)
    } else {
        spc
    }
}

/// The number of committees in each slot.
pub open spec fn committees_per_slot(n: int, cl: int, sc: int, mcs: int) -> int {
    if n >= cl * mcs {
        let a = n / cl / (mcs * 2) + 1;
        let b = sc / cl;
        if a < b {
            a
        } else {
            b
        }
    } else {
        1
    }
}

/// The number of slots that one committee's shard stays for.
pub open spec fn slots_per_committee(n: int, cl: int, mcs: int) -> int {
    if n >= cl * mcs {
        1
    } else {
        spread(n, cl, mcs, 1)
    }
}

/// The first position of part `i` when `len` items are split into `parts` parts.
pub open spec fn part_start(len: int, parts: int, i: int) -> int {
    len * i / parts
}

/// Slot `i` of a cycle: its share of `order`, split into `cps` committees
/// on consecutive shards.
pub open spec fn cycle_slot(order: Seq<usize>, cl: int, sc: int, cps: int, spc: int, i: int) -> Seq<
    ShardAndCommitteeView,
> {
    let n = order.len() as int;
    let lo = part_start(n, cl, i);
    let m = part_start(n, cl, i + 1) - lo;
    Seq::new(
        cps as nat,
        |j: int|
            ShardAndCommitteeView {
                shard: ((i * cps / spc + j) % sc) as u16,
                committee: order.subrange(lo + part_start(m, cps, j), lo + part_start(m, cps, j + 1)),
            },
    )
}

/// The genesis assignment table: the cycle of `order`, twice.
pub open spec fn genesis_table(c: ChainConfigView, order: Seq<usize>) -> Seq<Seq<ShardAndCommitteeView>> {
    let n = c.initial_validators.len() as int;
    let cl = c.cycle_length as int;
    let sc = c.shard_count as int;
    let mcs = c.min_committee_size as int;
    Seq::new(
        (2 * cl) as nat,
        |t: int|
            cycle_slot(
                order,
                cl,
                sc,
                committees_per_slot(n, cl, sc, mcs),
                slots_per_committee(n, cl, mcs),
                t % cl,
            ),
    )
}

/// Why the validators of a configuration cannot be assigned, if they cannot.
pub open spec fn assignment_error(c: ChainConfigView, order: Seq<usize>) -> Option<
    ValidatorAssignmentError,
> {
    if c.cycle_length == 0 {
        Some(ValidatorAssignmentError::ZeroCycleLength)
    } else if c.shard_count / c.cycle_length as u16 == 0 {
        Some(ValidatorAssignmentError::TooFewShards)
    } else if c.min_committee_size == 0 {
        Some(ValidatorAssignmentError::ZeroCommitteeSize)
    } else if !is_ordering(order, c.initial_validators.len() as int) {
        Some(ValidatorAssignmentError::InvalidValidatorOrder)
    } else {
        None
    }
}

/// Bounds of the parts of a split.
proof fn lemma_part_bounds(len: int, parts: int, i: int)
    requires
        0 <= len,
        0 < parts,
        0 <= i < parts,
    ensures
        0 <= part_start(len, parts, i) <= part_start(len, parts, i + 1) <= len,
{
    assert(0 <= len * i <= len * (i + 1) <= len * parts) by (nonlinear_arith)
        requires
            0 <= len,
            0 <= i < parts,
    ;
    vstd::arithmetic::div_mod::lemma_div_is_ordered(len * i, len * (i + 1), parts);
    vstd::arithmetic::div_mod::lemma_div_is_ordered(len * (i + 1), len * parts, parts);
    vstd::arithmetic::div_mod::lemma_div_by_multiple(len, parts);
    vstd::arithmetic::div_mod::lemma_div_is_ordered(0, len * i, parts);
}

/// The items of `v` from `lo` up to `hi`.
fn copy_range(v: &Vec<usize>, lo: usize, hi: usize) -> (r: Vec<usize>)
    requires
        lo <= hi <= v.len(),
    ensures
        r@ == v@.subrange(lo as int, hi as int),
{
    let mut r: Vec<usize> = Vec::new();
    let mut k: usize = lo;
    while k < hi
        invariant
            lo <= k <= hi <= v.len(),
            r@ == v@.subrange(lo as int, k as int),
        decreases hi - k,
    {
        r.push(v[k]);
        proof {
            assert(v@.subrange(lo as int, k + 1) =~= v@.subrange(lo as int, k as int).push(v@[k as int]));
        }
        k = k + 1;
    }
    r
}

/// The first position of part `i` of `len` items split into `parts` parts.
fn split_point(len: usize, parts: usize, i: usize) -> (r: usize)
    requires
        0 < parts,
        0 <= i <= parts,
    ensures
        r == part_start(len as int, parts as int, i as int),
        r <= len,
{
    proof {
        if i < parts {
            lemma_part_bounds(len as int, parts as int, i as int);
        } else {
            vstd::arithmetic::div_mod::lemma_div_by_multiple(len as int, parts as int);
        }
        assert((len as int) * (i as int) <= (len as int) * (parts as int)) by (nonlinear_arith)
            requires
                i <= parts,
        ;
        assert((len as int) * (parts as int) <= 0xffff_ffff_ffff_ffff_ffff_ffff_ffff_ffffint) by (nonlinear_arith)
            requires
                len <= usize::MAX,
                parts <= usize::MAX,
        ;
    }
    let p = (len as u128) * (i as u128) / (parts as u128);
    p as usize
}


/// Builds slot `i` of a cycle of `order`.
fn build_slot(order: &Vec<usize>, cl: usize, sc: usize, cps: usize, spc: usize, i: usize) -> (r: Vec<
    ShardAndCommittee,
>)
    requires
        1 <= cl <= 255,
        1 <= sc <= 65535,
        1 <= cps <= 65535,
        1 <= spc,
        i < cl,
    ensures
        slot_view(r) == cycle_slot(order@, cl as int, sc as int, cps as int, spc as int, i as int),
{
    let ghost model = cycle_slot(order@, cl as int, sc as int, cps as int, spc as int, i as int);
    let n = order.len();
    let lo = split_point(n, cl, i);
    let hi = split_point(n, cl, i + 1);
    proof {
        lemma_part_bounds(n as int, cl as int, i as int);
    }
    let m = hi - lo;
    proof {
        lemma_mul_bound(i as int, cps as int);
        vstd::arithmetic::div_mod::lemma_div_is_ordered_by_denominator(i as int * cps as int, 1, spc as int);
        vstd::arithmetic::div_mod::lemma_div_basics(i as int * cps as int);
    }
    let first_shard = i * cps / spc;
    let mut r: Vec<ShardAndCommittee> = Vec::new();
    let mut j: usize = 0;
    while j < cps
        invariant
            0 <= j <= cps <= 65535,
            1 <= sc <= 65535,
            1 <= spc,
            lo as int == part_start(n as int, cl as int, i as int),
            m as int == part_start(n as int, cl as int, i as int + 1) - lo,
            lo + m <= n == order.len(),
            first_shard as int == (i as int * cps as int) / (spc as int),
            first_shard <= 255 * 65535,
            model == cycle_slot(order@, cl as int, sc as int, cps as int, spc as int, i as int),
            r@.len() == j,
            slot_view(r) =~= model.take(j as int),
        decreases cps - j,
    {
        let a = split_point(m, cps, j);
        let b = split_point(m, cps, j + 1);
        proof {
            lemma_part_bounds(m as int, cps as int, j as int);
        }
        let committee = copy_range(order, lo + a, lo + b);
        let shard = ((first_shard + j) % sc) as u16;
        let ghost before = r@;
        let ghost old_view = slot_view(r);
        r.push(ShardAndCommittee { shard, committee });
        proof {
            assert(r@ == before.push(r@[j as int]));
            assert(slot_view(r) =~= model.take(j as int + 1)) by {
                assert(r@[j as int].committee@ =~= model[j as int].committee);
                assert(slot_view(r)[j as int] == model[j as int]);
                assert forall|k: int| 0 <= k < j implies slot_view(r)[k] == model[k] by {
                    assert(slot_view(r)[k] == r@[k]@);
                    assert(r@[k] == before[k]);
                    assert(old_view[k] == before[k]@);
                    assert(old_view[k] == model.take(j as int)[k]);
                }
            }
        }
        j = j + 1;
    }
    proof {
        assert(model.take(j as int) =~= model);
    }
    r
}

proof fn lemma_mul_bound(i: int, cps: int)
    requires
        0 <= i <= 255,
        0 <= cps <= 65535,
    ensures
        0 <= i * cps <= 255 * 65535,
{
    assert(0 <= i * cps <= 255 * 65535) by (nonlinear_arith)
        requires
            0 <= i <= 255,
            0 <= cps <= 65535,
    ;
}


/// Whether `order` lists each of the indices `0..n` exactly once.
pub fn check_ordering(order: &Vec<usize>, n: usize) -> (r: bool)
    ensures
        r == is_ordering(order@, n as int),
{
    if order.len() != n {
        return false;
    }
    let mut seen: Vec<bool> = Vec::new();
    let mut k: usize = 0;
    while k < n
        invariant
            0 <= k <= n,
            seen@.len() == k,
            forall|v: int| 0 <= v < k ==> !#[trigger] seen@[v],
        decreases n - k,
    {
        seen.push(false);
        k = k + 1;
    }
    let mut a: usize = 0;
    while a < n
        invariant
            0 <= a <= n,
            order@.len() == n,
            seen@.len() == n,
            forall|x: int| 0 <= x < a ==> #[trigger] order@[x] < n && seen@[order@[x] as int],
            forall|v: int| 0 <= v < n && #[trigger] seen@[v] ==> exists|x: int| 0 <= x < a && order@[x] == v,
            forall|x: int, y: int| 0 <= x < a && 0 <= y < a && x != y ==> #[trigger] order@[x] != #[trigger] order@[y],
        decreases n - a,
    {
        let v = order[a];
        if v >= n {
            proof {
                assert(order@[a as int] >= n);
            }
            return false;
        }
        if seen[v] {
            proof {
                let x = choose|x: int| 0 <= x < a && order@[x] == v;
                assert(order@[x] == order@[a as int]);
            }
            return false;
        }
        seen.set(v, true);
        proof {
            assert forall|v2: int| 0 <= v2 < n && #[trigger] seen@[v2] implies exists|x: int| 0 <= x < a + 1 && order@[x] == v2 by {
                if v2 != v {
                    let x = choose|x: int| 0 <= x < a && order@[x] == v2;
                    assert(0 <= x < a + 1 && order@[x] == v2);
                } else {
                    assert(order@[a as int] == v2);
                }
            }
            assert forall|x: int, y: int| 0 <= x < a + 1 && 0 <= y < a + 1 && x != y implies #[trigger] order@[x] != #[trigger] order@[y] by {
                if x == a {
                    assert(seen@[order@[y] as int]);
                } else if y == a {
                    assert(seen@[order@[x] as int]);
                }
            }
        }
        a = a + 1;
    }
    true
}

/// The number of committees per slot and of slots per committee for `n`
/// validators.
fn assignment_parameters(n: usize, cl: usize, sc: usize, mcs: u64) -> (r: (usize, usize))
    requires
        1 <= cl <= 255,
        1 <= sc <= 65535,
        sc / cl >= 1,
        mcs >= 1,
    ensures
        r.0 == committees_per_slot(n as int, cl as int, sc as int, mcs as int),
        r.1 == slots_per_committee(n as int, cl as int, mcs as int),
        1 <= r.0 <= 65535,
        1 <= r.1,
{
    proof {
        assert((cl as int) * (mcs as int) <= 255 * 0xffff_ffff_ffff_ffff) by (nonlinear_arith)
            requires
                cl <= 255,
                mcs <= 0xffff_ffff_ffff_ffffu64,
        ;
    }
    let target = (cl as u128) * (mcs as u128);
    if n as u128 >= target {
        let per_slot_limit = sc / cl;
        let wanted = (n as u128) / (cl as u128) / ((mcs as u128) * 2);
        proof {
            vstd::arithmetic::div_mod::lemma_div_is_ordered_by_denominator(n as int, 1, cl as int);
            vstd::arithmetic::div_mod::lemma_div_basics(n as int);
            vstd::arithmetic::div_mod::lemma_div_is_ordered_by_denominator(n as int / cl as int, 1, (mcs as int) * 2);
            vstd::arithmetic::div_mod::lemma_div_basics(n as int / cl as int);
            vstd::arithmetic::div_mod::lemma_div_is_ordered_by_denominator(sc as int, 1, cl as int);
            vstd::arithmetic::div_mod::lemma_div_basics(sc as int);
        }
        let cps = if wanted + 1 < per_slot_limit as u128 {
            (wanted + 1) as usize
        } else {
            per_slot_limit
        };
        (cps, 1)
    } else {
        let mut spc: u128 = 1;
        proof {
            assert((n as int) * (spc as int) <= 0xffff_ffff_ffff_ffff * 510) by (nonlinear_arith)
                requires
                    n <= 0xffff_ffff_ffff_ffffu64,
                    spc <= 510,
            ;
        }
        while (n as u128) * spc < target && spc < cl as u128
            invariant
                1 <= spc <= 2 * cl,
                1 <= cl <= 255,
                target == (cl as int) * (mcs as int),
                spread(n as int, cl as int, mcs as int, spc as int) == spread(n as int, cl as int, mcs as int, 1),
                (n as int) * (spc as int) <= 0xffff_ffff_ffff_ffff * 510,
            decreases 2 * (cl as int) - (spc as int),
        {
            spc = spc * 2;
            proof {
                assert((n as int) * (spc as int) <= 0xffff_ffff_ffff_ffff * 510) by (nonlinear_arith)
                    requires
                        n <= 0xffff_ffff_ffff_ffffu64,
                        spc <= 510,
                ;
            }
        }
        (1, spc as usize)
    }
}


/// The record of a validator inducted at genesis, with a full deposit.
pub open spec fn genesis_record(r: ValidatorRegistration, deposit: u64) -> ValidatorRecord {
    ValidatorRecord {
        pubkey: r.pubkey,
        withdrawal_shard: r.withdrawal_shard,
        withdrawal_address: r.withdrawal_address,
        randao_commitment: r.randao_commitment,
        randao_last_change: 0,
        balance: deposit,
        status: ValidatorStatus::Active,
        exit_slot: 0,
    }
}

/// The active state at genesis: no attestation, and a zero hash for each slot of a cycle.
pub open spec fn genesis_active(c: ChainConfigView) -> ActiveStateView {
    ActiveStateView {
        pending_attestations: Seq::empty(),
        recent_block_hashes: Seq::new(c.cycle_length as nat, |i: int| zero_hash()),
    }
}

/// The crystallized state at genesis.
pub open spec fn genesis_crystallized(c: ChainConfigView, order: Seq<usize>) -> CrystallizedStateView {
    CrystallizedStateView {
        validator_set_change_slot: 0,
        validators: c.initial_validators.map_values(
            |r: ValidatorRegistration| genesis_record(r, c.deposit_size_gwei),
        ),
        crosslinks: Seq::new(
            c.shard_count as nat,
            |k: int| CrosslinkView { recently_changed: false, slot: 0, hash: zero_hash() },
        ),
        last_state_recalculation_slot: 0,
        last_finalized_slot: 0,
        last_justified_slot: 0,
        justified_streak: 0,
        shard_and_committee_for_slots: genesis_table(c, order),
        deposits_penalized_in_period: Seq::empty(),
        validator_set_delta_hash_chain: zero_hash(),
        pre_fork_version: INITIAL_FORK_VERSION,
        post_fork_version: INITIAL_FORK_VERSION,
        fork_slot_number: 0,
    }
}

/// Derives the active and crystallized states of slot 0 from a configuration.
///
/// Every initial validator is inducted as active with a full deposit.
/// `validator_order` is the shuffled order of the validator indices; it is
/// cut into the slots of a cycle, each slot into its committees, and the cycle
/// is laid down twice.
pub fn genesis_states(config: &ChainConfig, validator_order: &Vec<usize>) -> (r: Result<
    (ActiveState, CrystallizedState),
    ValidatorAssignmentError,
>)
    ensures
        match r {
            Ok((a, c)) => {
                &&& assignment_error(config@, validator_order@) is None
                &&& a@ == genesis_active(config@)
                &&& c@ == genesis_crystallized(config@, validator_order@)
            },
            Err(e) => assignment_error(config@, validator_order@) == Some(e),
        },
{
    if config.cycle_length == 0 {
        return Err(ValidatorAssignmentError::ZeroCycleLength);
    }
    if config.shard_count / (config.cycle_length as u16) == 0 {
        return Err(ValidatorAssignmentError::TooFewShards);
    }
    if config.min_committee_size == 0 {
        return Err(ValidatorAssignmentError::ZeroCommitteeSize);
    }
    let n = config.initial_validators.len();
    if !check_ordering(validator_order, n) {
        return Err(ValidatorAssignmentError::InvalidValidatorOrder);
    }
    let cl = config.cycle_length as usize;
    let sc = config.shard_count as usize;
    let (cps, spc) = assignment_parameters(n, cl, sc, config.min_committee_size);
    let ghost cv = config@;

    let mut validators: Vec<ValidatorRecord> = Vec::new();
    let mut k: usize = 0;
    while k < n
        invariant
            0 <= k <= n == config.initial_validators.len(),
            cv == config@,
            validators@ =~= cv.initial_validators.take(k as int).map_values(
                |r: ValidatorRegistration| genesis_record(r, cv.deposit_size_gwei),
            ),
        decreases n - k,
    {
        let reg = config.initial_validators[k];
        validators.push(
            ValidatorRecord {
                pubkey: reg.pubkey,
                withdrawal_shard: reg.withdrawal_shard,
                withdrawal_address: reg.withdrawal_address,
                randao_commitment: reg.randao_commitment,
                randao_last_change: 0,
                balance: config.deposit_size_gwei,
                status: ValidatorStatus::Active,
                exit_slot: 0,
            },
        );
        k = k + 1;
    }
    proof {
        assert(cv.initial_validators.take(n as int) =~= cv.initial_validators);
    }

    let mut crosslinks: Vec<CrosslinkRecord> = Vec::new();
    let mut k: usize = 0;
    while k < sc
        invariant
            0 <= k <= sc,
            crosslinks@.len() == k,
            forall|x: int| 0 <= x < k ==> (#[trigger] crosslinks@[x])@ == (CrosslinkView { recently_changed: false, slot: 0, hash: zero_hash() }),
        decreases sc - k,
    {
        crosslinks.push(CrosslinkRecord { recently_changed: false, slot: 0, hash: Hash256::zero() });
        k = k + 1;
    }

    let mut recent_block_hashes: Vec<Hash256> = Vec::new();
    let mut k: usize = 0;
    while k < cl
        invariant
            0 <= k <= cl,
            recent_block_hashes@.len() == k,
            forall|x: int| 0 <= x < k ==> (#[trigger] recent_block_hashes@[x])@ == zero_hash(),
        decreases cl - k,
    {
        recent_block_hashes.push(Hash256::zero());
        k = k + 1;
    }

    let ghost table_model = genesis_table(cv, validator_order@);
    let mut table: Vec<Vec<ShardAndCommittee>> = Vec::new();
    let mut t: usize = 0;
    while t < 2 * cl
        invariant
            0 <= t <= 2 * cl,
            1 <= cl <= 255,
            1 <= sc <= 65535,
            1 <= cps <= 65535,
            1 <= spc,
            cl == cv.cycle_length,
            sc == cv.shard_count,
            n == cv.initial_validators.len(),
            validator_order@.len() == n,
            cps == committees_per_slot(n as int, cl as int, sc as int, cv.min_committee_size as int),
            spc == slots_per_committee(n as int, cl as int, cv.min_committee_size as int),
            table_model == genesis_table(cv, validator_order@),
            table@.len() == t,
            table_view(table@) =~= table_model.take(t as int),
        decreases 2 * cl - t,
    {
        let i = if t < cl {
            t
        } else {
            t - cl
        };
        proof {
            assert(i as int == t as int % cl as int) by {
                if t >= cl {
                    vstd::arithmetic::div_mod::lemma_mod_sub_multiples_vanish(t as int, cl as int);
                    vstd::arithmetic::div_mod::lemma_small_mod(i as nat, cl as nat);
                } else {
                    vstd::arithmetic::div_mod::lemma_small_mod(t as nat, cl as nat);
                }
            }
        }
        let slot = build_slot(validator_order, cl, sc, cps, spc, i);
        let ghost old_view = table_view(table@);
        table.push(slot);
        proof {
            assert forall|x: int| 0 <= x < t + 1 implies table_view(table@)[x] == table_model[x] by {
                if x < t {
                    assert(table_view(table@)[x] == old_view[x]);
                }
            }
        }
        t = t + 1;
    }
    proof {
        assert(table_model.take(t as int) =~= table_model);
    }

    let active = ActiveState { pending_attestations: Vec::new(), recent_block_hashes };
    let crystallized = CrystallizedState {
        validator_set_change_slot: 0,
        validators,
        crosslinks,
        last_state_recalculation_slot: 0,
        last_finalized_slot: 0,
        last_justified_slot: 0,
        justified_streak: 0,
        shard_and_committee_for_slots: table,
        deposits_penalized_in_period: Vec::new(),
        validator_set_delta_hash_chain: Hash256::zero(),
        pre_fork_version: INITIAL_FORK_VERSION,
        post_fork_version: INITIAL_FORK_VERSION,
        fork_slot_number: 0,
    };
    proof {
        assert(crystallized@.crosslinks =~= genesis_crystallized(cv, validator_order@).crosslinks);
        assert(active@.recent_block_hashes =~= genesis_active(cv).recent_block_hashes);
        assert(active@.pending_attestations =~= Seq::<crate::types::AttestationRecord>::empty());
        assert(crystallized@.deposits_penalized_in_period =~= Seq::<u32>::empty());
        assert(active@ == genesis_active(cv));
        assert(crystallized@ == genesis_crystallized(cv, validator_order@));
    }
    Ok((active, crystallized))
}

} // verus!
