use vstd::prelude::*;

use crate::types::{slot_view, table_view, ShardAndCommittee, ShardAndCommitteeView};

verus! {

/// Why an assignment table cannot be turned into attester and proposer maps.
#[derive(Clone, Copy, Debug, PartialEq, Eq, Structural)]
pub enum AttesterAndProposerMapError {
    /// The slot numbers of the table do not fit in a `u64` from the starting slot.
    SlotOutOfRange,
    /// A slot of the table lists no shard.
    NoShardsForSlot,
    /// A shard of a slot has an empty committee.
    NoValidatorsForShard,
}

/// Whether every slot of a table of `len` slots starting at `start` has a `u64` number.
pub open spec fn slots_fit(len: int, start: int) -> bool {
    len == 0 || start + len - 1 <= u64::MAX
}

/// The error that one slot of a table holds, if any.
pub open spec fn slot_error(s: Seq<ShardAndCommitteeView>) -> Option<AttesterAndProposerMapError> {
    if s.len() == 0 {
        Some(AttesterAndProposerMapError::NoShardsForSlot)
    } else if exists|j: int| 0 <= j < s.len() && #[trigger] s[j].committee.len() == 0 {
        Some(AttesterAndProposerMapError::NoValidatorsForShard)
    } else {
        None
    }
}

/// The error of the first slot of `t` that holds one.
pub open spec fn first_slot_error(t: Seq<Seq<ShardAndCommitteeView>>) -> Option<
    AttesterAndProposerMapError,
>
    decreases t.len(),
{
    if t.len() == 0 {
        None
    } else {
        match first_slot_error(t.drop_last()) {
            Some(e) => Some(e),
            None => slot_error(t.last()),
        }
    }
}

/// The error with which a table is rejected, if any.
pub open spec fn table_error(t: Seq<Seq<ShardAndCommitteeView>>, start: int) -> Option<
    AttesterAndProposerMapError,
> {
    if !slots_fit(t.len() as int, start) {
        Some(AttesterAndProposerMapError::SlotOutOfRange)
    } else {
        first_slot_error(t)
    }
}

/// The validators of a slot that attest for `shard`, in the order of the slot's committees.
pub open spec fn shard_attesters(s: Seq<ShardAndCommitteeView>, shard: u16) -> Seq<usize>
    decreases s.len(),
{
    if s.len() == 0 {
        Seq::empty()
    } else {
        shard_attesters(s.drop_last(), shard) + if s.last().shard == shard {
            s.last().committee
        } else {
            Seq::empty()
        }
    }
}

/// Whether a slot lists `shard`.
pub open spec fn slot_has_shard(s: Seq<ShardAndCommitteeView>, shard: u16) -> bool {
    exists|j: int| 0 <= j < s.len() && #[trigger] s[j].shard == shard
}

/// Whether `slot` is a slot of a table of `len` slots starting at `start`.
pub open spec fn in_table(len: int, start: int, slot: u64) -> bool {
    start <= slot < start + len
}

/// The attester map of a table: for each slot and each shard it lists, the
/// validators that attest there.
pub open spec fn attester_model(t: Seq<Seq<ShardAndCommitteeView>>, start: int) -> Map<
    (u64, u16),
    Seq<usize>,
> {
    Map::new(
        |k: (u64, u16)| in_table(t.len() as int, start, k.0) && slot_has_shard(t[k.0 - start], k.1),
        |k: (u64, u16)| shard_attesters(t[k.0 - start], k.1),
    )
}

/// The proposer map of a table: for each slot, the first validator of the
/// slot's first committee.
pub open spec fn proposer_model(t: Seq<Seq<ShardAndCommitteeView>>, start: int) -> Map<u64, usize> {
    Map::new(
        |s: u64| in_table(t.len() as int, start, s),
        |s: u64| t[s - start][0].committee[0],
    )
}

/// One committee of the attester map, at a slot and a shard.
#[derive(Clone, Debug, PartialEq)]
pub struct AttesterEntry {
    pub slot: u64,
    pub shard: u16,
    pub validators: Vec<usize>,
}

/// The validators of `entries` listed under a slot and shard, in order.
pub open spec fn entry_attesters(entries: Seq<AttesterEntry>, slot: u64, shard: u16) -> Seq<usize>
    decreases entries.len(),
{
    if entries.len() == 0 {
        Seq::empty()
    } else {
        entry_attesters(entries.drop_last(), slot, shard) + if entries.last().slot == slot
            && entries.last().shard == shard {
            entries.last().validators@
        } else {
            Seq::empty()
        }
    }
}

/// Whether `entries` lists anything under a slot and shard.
pub open spec fn entries_have(entries: Seq<AttesterEntry>, slot: u64, shard: u16) -> bool {
    exists|i: int|
        0 <= i < entries.len() && #[trigger] entries[i].slot == slot && entries[i].shard == shard
}

/// For each slot and shard, the ordered validators expected to attest.
#[derive(Clone, Debug, PartialEq)]
pub struct AttesterMap {
    entries: Vec<AttesterEntry>,
}

impl View for AttesterMap {
    type V = Map<(u64, u16), Seq<usize>>;

    closed spec fn view(&self) -> Map<(u64, u16), Seq<usize>> {
        Map::new(
            |k: (u64, u16)| entries_have(self.entries@, k.0, k.1),
            |k: (u64, u16)| entry_attesters(self.entries@, k.0, k.1),
        )
    }
}

/// For each slot, the validator expected to propose.
#[derive(Clone, Debug, PartialEq)]
pub struct ProposerMap {
    start_slot: u64,
    proposers: Vec<usize>,
}

impl View for ProposerMap {
    type V = Map<u64, usize>;

    closed spec fn view(&self) -> Map<u64, usize> {
        Map::new(
            |s: u64| in_table(self.proposers@.len() as int, self.start_slot as int, s),
            |s: u64| self.proposers@[s - self.start_slot],
        )
    }
}


/// Once a prefix of a table holds an error, the whole table holds that error first.
proof fn lemma_first_error_prefix(t: Seq<Seq<ShardAndCommitteeView>>, n: int)
    requires
        0 <= n <= t.len(),
        first_slot_error(t.take(n)) is Some,
    ensures
        first_slot_error(t) == first_slot_error(t.take(n)),
    decreases t.len(),
{
    if n == t.len() {
        assert(t.take(n) =~= t);
    } else {
        assert(t.drop_last().take(n) =~= t.take(n));
        lemma_first_error_prefix(t.drop_last(), n);
    }
}

/// A table without error has a proposer and no empty committee in any slot.
proof fn lemma_no_error_slots(t: Seq<Seq<ShardAndCommitteeView>>)
    requires
        first_slot_error(t) is None,
    ensures
        forall|i: int| 0 <= i < t.len() ==> #[trigger] slot_error(t[i]) is None,
    decreases t.len(),
{
    if t.len() > 0 {
        lemma_no_error_slots(t.drop_last());
        assert forall|i: int| 0 <= i < t.len() implies #[trigger] slot_error(t[i]) is None by {
            if i < t.len() - 1 {
                assert(t[i] == t.drop_last()[i]);
            }
        }
    }
}

/// Checks a table, slot by slot, for the first error it holds.
fn check_table(table: &Vec<Vec<ShardAndCommittee>>, start_slot: u64) -> (r: Result<
    (),
    AttesterAndProposerMapError,
>)
    ensures
        match r {
            Ok(()) => table_error(table_view(table@), start_slot as int) is None,
            Err(e) => table_error(table_view(table@), start_slot as int) == Some(e),
        },
{
    let ghost tv = table_view(table@);
    if table.len() > 0 && (table.len() - 1) as u64 > u64::MAX - start_slot {
        return Err(AttesterAndProposerMapError::SlotOutOfRange);
    }
    let mut i: usize = 0;
    while i < table.len()
        invariant
            0 <= i <= table.len(),
            tv == table_view(table@),
            slots_fit(tv.len() as int, start_slot as int),
            first_slot_error(tv.take(i as int)) is None,
        decreases table.len() - i,
    {
        let slot = &table[i];
        proof {
            assert(tv.take(i as int + 1).drop_last() =~= tv.take(i as int));
            assert(tv[i as int] == slot_view(*slot));
        }
        if slot.len() == 0 {
            proof {
                lemma_first_error_prefix(tv, i as int + 1);
            }
            return Err(AttesterAndProposerMapError::NoShardsForSlot);
        }
        let mut j: usize = 0;
        while j < slot.len()
            invariant
                0 <= j <= slot.len(),
                0 <= i < table.len(),
                tv == table_view(table@),
                *slot == table@[i as int],
                slots_fit(tv.len() as int, start_slot as int),
                first_slot_error(tv.take(i as int)) is None,
                forall|k: int| 0 <= k < j ==> (#[trigger] slot@[k]).committee@.len() > 0,
            decreases slot.len() - j,
        {
            if slot[j].committee.len() == 0 {
                proof {
                    assert(tv[i as int] == slot_view(*slot));
                    assert(tv[i as int].len() > 0);
                    assert(tv[i as int][j as int].committee.len() == 0);
                    assert(slot_error(tv[i as int]) == Some(AttesterAndProposerMapError::NoValidatorsForShard));
                    assert(tv.take(i as int + 1).drop_last() =~= tv.take(i as int));
                    lemma_first_error_prefix(tv, i as int + 1);
                }
                return Err(AttesterAndProposerMapError::NoValidatorsForShard);
            }
            j = j + 1;
        }
        proof {
            assert forall|k: int| 0 <= k < tv[i as int].len() implies #[trigger] tv[i as int][k].committee.len() != 0 by {
                assert(slot@[k].committee@.len() > 0);
            }
        }
        i = i + 1;
    }
    assert(tv.take(i as int) =~= tv);
    Ok(())
}


/// Whether a table of `t` from `start` lists `shard` at `slot`.
pub open spec fn model_has(t: Seq<Seq<ShardAndCommitteeView>>, start: int, slot: u64, shard: u16) -> bool {
    in_table(t.len() as int, start, slot) && slot_has_shard(t[slot - start], shard)
}

/// The validators that a table from `start` lists at `slot` for `shard`.
pub open spec fn model_attesters(t: Seq<Seq<ShardAndCommitteeView>>, start: int, slot: u64, shard: u16) -> Seq<usize> {
    if in_table(t.len() as int, start, slot) {
        shard_attesters(t[slot - start], shard)
    } else {
        Seq::empty()
    }
}

/// Appending an entry adds its validators under its own slot and shard only.
proof fn lemma_entry_push(e: Seq<AttesterEntry>, x: AttesterEntry, slot: u64, shard: u16)
    ensures
        entries_have(e.push(x), slot, shard) == (entries_have(e, slot, shard) || (x.slot == slot
            && x.shard == shard)),
        entry_attesters(e.push(x), slot, shard) == entry_attesters(e, slot, shard) + if x.slot
            == slot && x.shard == shard {
            x.validators@
        } else {
            Seq::empty()
        },
{
    assert(e.push(x).drop_last() =~= e);
    if entries_have(e, slot, shard) {
        let i = choose|i: int|
            0 <= i < e.len() && #[trigger] e[i].slot == slot && e[i].shard == shard;
        assert(e.push(x)[i] == e[i]);
    }
    if entries_have(e.push(x), slot, shard) {
        let i = choose|i: int|
            0 <= i < e.push(x).len() && #[trigger] e.push(x)[i].slot == slot && e.push(x)[i].shard
                == shard;
        if i < e.len() {
            assert(e[i] == e.push(x)[i]);
        }
    }
    if x.slot == slot && x.shard == shard {
        assert(e.push(x)[e.len() as int] == x);
    }
}

/// Adding a committee to a slot adds its validators under that slot and its shard only.
proof fn lemma_slot_push(s: Seq<ShardAndCommitteeView>, c: ShardAndCommitteeView, shard: u16)
    ensures
        slot_has_shard(s.push(c), shard) == (slot_has_shard(s, shard) || c.shard == shard),
        shard_attesters(s.push(c), shard) == shard_attesters(s, shard) + if c.shard == shard {
            c.committee
        } else {
            Seq::empty()
        },
{
    assert(s.push(c).drop_last() =~= s);
    if slot_has_shard(s, shard) {
        let j = choose|j: int| 0 <= j < s.len() && #[trigger] s[j].shard == shard;
        assert(s.push(c)[j] == s[j]);
    }
    if slot_has_shard(s.push(c), shard) {
        let j = choose|j: int| 0 <= j < s.push(c).len() && #[trigger] s.push(c)[j].shard == shard;
        if j < s.len() {
            assert(s[j] == s.push(c)[j]);
        }
    }
    if c.shard == shard {
        assert(s.push(c)[s.len() as int] == c);
    }
}

/// The entries of a map list exactly what a table lists.
pub open spec fn entries_match(e: Seq<AttesterEntry>, t: Seq<Seq<ShardAndCommitteeView>>, start: int) -> bool {
    &&& forall|slot: u64, shard: u16|
        #[trigger] entries_have(e, slot, shard) == model_has(t, start, slot, shard)
    &&& forall|slot: u64, shard: u16|
        #[trigger] entry_attesters(e, slot, shard) == model_attesters(t, start, slot, shard)
}

/// Builds the attester map and the proposer map of an assignment table whose
/// first slot is `start_slot`.
///
/// Each slot lists its shard committees; the attesters of a slot and shard are
/// the members of the slot's committees for that shard, in table order. The
/// proposer of a slot is the first member of its first committee.
pub fn generate_attester_and_proposer_maps(
    table: &Vec<Vec<ShardAndCommittee>>,
    start_slot: u64,
) -> (r: Result<(AttesterMap, ProposerMap), AttesterAndProposerMapError>)
    ensures
        match r {
            Ok((a, p)) => {
                &&& table_error(table_view(table@), start_slot as int) is None
                &&& a@ == attester_model(table_view(table@), start_slot as int)
                &&& p@ == proposer_model(table_view(table@), start_slot as int)
            },
            Err(e) => table_error(table_view(table@), start_slot as int) == Some(e),
        },
{
    let ghost tv = table_view(table@);
    match check_table(table, start_slot) {
        Err(e) => {
            return Err(e);
        },
        Ok(()) => {},
    }
    proof {
        lemma_no_error_slots(tv);
        assert(entries_match(Seq::empty(), tv.take(0), start_slot as int));
    }
    let mut entries: Vec<AttesterEntry> = Vec::new();
    let mut proposers: Vec<usize> = Vec::new();
    let mut i: usize = 0;
    while i < table.len()
        invariant
            0 <= i <= table.len(),
            tv == table_view(table@),
            slots_fit(tv.len() as int, start_slot as int),
            forall|k: int| 0 <= k < tv.len() ==> #[trigger] slot_error(tv[k]) is None,
            entries_match(entries@, tv.take(i as int), start_slot as int),
            proposers@ =~= Seq::new(i as nat, |k: int| tv[k][0].committee[0]),
        decreases table.len() - i,
    {
        let slot = &table[i];
        let slot_number: u64 = start_slot + i as u64;
        let ghost before = tv.take(i as int);
        proof {
            assert(tv[i as int] == slot_view(*slot));
            assert(slot_error(tv[i as int]) is None);
            assert(tv[i as int][0].committee.len() != 0);
            let part = before.push(tv[i as int].take(0));
            assert forall|sl: u64, sh: u16|
                #![trigger entries_have(entries@, sl, sh)]
                #![trigger entry_attesters(entries@, sl, sh)]
                entries_have(entries@, sl, sh) == model_has(part, start_slot as int, sl, sh)
                && entry_attesters(entries@, sl, sh) == model_attesters(part, start_slot as int, sl, sh) by {
                assert(entries_have(entries@, sl, sh) == model_has(before, start_slot as int, sl, sh));
                assert(entry_attesters(entries@, sl, sh) == model_attesters(before, start_slot as int, sl, sh));
                if in_table(before.len() as int, start_slot as int, sl) {
                    assert(part[sl - start_slot] == before[sl - start_slot]);
                }
                if sl == slot_number {
                    assert(part[sl - start_slot] =~= Seq::empty());
                    assert(shard_attesters(Seq::empty(), sh) == Seq::<usize>::empty());
                }
            }
        }
        proposers.push(slot[0].committee[0]);
        let mut j: usize = 0;
        while j < slot.len()
            invariant
                0 <= j <= slot.len(),
                0 <= i < table.len(),
                tv == table_view(table@),
                *slot == table@[i as int],
                tv[i as int] == slot_view(*slot),
                slot_number == start_slot + i,
                before == tv.take(i as int),
                entries_match(entries@, before.push(tv[i as int].take(j as int)), start_slot as int),
            decreases slot.len() - j,
        {
            let validators = slot[j].committee.clone();
            proof {
                assert(validators@ =~= slot@[j as int].committee@);
            }
            let x = AttesterEntry { slot: slot_number, shard: slot[j].shard, validators };
            let ghost old_entries = entries@;
            let ghost part = before.push(tv[i as int].take(j as int));
            let ghost next = before.push(tv[i as int].take(j as int + 1));
            let ghost c = tv[i as int][j as int];
            proof {
                assert(tv[i as int].take(j as int + 1) =~= tv[i as int].take(j as int).push(c));
                assert(c.committee == x.validators@);
                assert(c.shard == x.shard);
            }
            entries.push(x);
            proof {
                assert forall|sl: u64, sh: u16|
                    #![trigger entries_have(entries@, sl, sh)]
                    #![trigger entry_attesters(entries@, sl, sh)]
                    entries_have(entries@, sl, sh) == model_has(next, start_slot as int, sl, sh)
                    && entry_attesters(entries@, sl, sh) == model_attesters(next, start_slot as int, sl, sh) by {
                    lemma_entry_push(old_entries, x, sl, sh);
                    lemma_slot_push(tv[i as int].take(j as int), c, sh);
                    assert(entries_have(old_entries, sl, sh) == model_has(part, start_slot as int, sl, sh));
                    assert(entry_attesters(old_entries, sl, sh) == model_attesters(part, start_slot as int, sl, sh));
                    if in_table(next.len() as int, start_slot as int, sl) && sl != slot_number {
                        assert(part[sl - start_slot] == next[sl - start_slot]);
                    }
                    if sl != slot_number || sh != x.shard {
                        assert(entry_attesters(entries@, sl, sh) =~= entry_attesters(old_entries, sl, sh));
                    }
                    if sl != slot_number {
                        assert(model_attesters(next, start_slot as int, sl, sh) =~= model_attesters(part, start_slot as int, sl, sh));
                    } else if sh != x.shard {
                        assert(shard_attesters(tv[i as int].take(j as int + 1), sh) =~= shard_attesters(tv[i as int].take(j as int), sh));
                    }
                }
            }
            j = j + 1;
        }
        proof {
            assert(tv[i as int].take(j as int) =~= tv[i as int]);
            assert(before.push(tv[i as int]) =~= tv.take(i as int + 1));
        }
        i = i + 1;
    }
    proof {
        assert(tv.take(i as int) =~= tv);
    }
    let a = AttesterMap { entries };
    let p = ProposerMap { start_slot, proposers };
    proof {
        assert(a@ =~= attester_model(tv, start_slot as int));
        assert(p@ =~= proposer_model(tv, start_slot as int));
    }
    Ok((a, p))
}


impl AttesterMap {
    /// The validators expected to attest at `slot` for `shard`, in order.
    pub fn get(&self, slot: u64, shard: u16) -> (r: Option<Vec<usize>>)
        ensures
            match r {
                Some(v) => self@.contains_key((slot, shard)) && v@ == self@[(slot, shard)],
                None => !self@.contains_key((slot, shard)),
            },
    {
        let mut found = false;
        let mut out: Vec<usize> = Vec::new();
        let mut k: usize = 0;
        while k < self.entries.len()
            invariant
                0 <= k <= self.entries.len(),
                found == entries_have(self.entries@.take(k as int), slot, shard),
                out@ == entry_attesters(self.entries@.take(k as int), slot, shard),
            decreases self.entries.len() - k,
        {
            let ghost pre = self.entries@.take(k as int);
            let e = &self.entries[k];
            proof {
                assert(self.entries@.take(k as int + 1) =~= pre.push(*e));
                lemma_entry_push(pre, *e, slot, shard);
            }
            if e.slot == slot && e.shard == shard {
                found = true;
                let mut m: usize = 0;
                let ghost base = out@;
                while m < e.validators.len()
                    invariant
                        0 <= m <= e.validators.len(),
                        out@ == base + e.validators@.take(m as int),
                    decreases e.validators.len() - m,
                {
                    out.push(e.validators[m]);
                    proof {
                        assert(e.validators@.take(m as int + 1) =~= e.validators@.take(m as int).push(e.validators@[m as int]));
                    }
                    m = m + 1;
                }
                proof {
                    assert(e.validators@.take(m as int) =~= e.validators@);
                }
            } else {
                proof {
                    assert(out@ =~= out@ + Seq::<usize>::empty());
                }
            }
            k = k + 1;
        }
        proof {
            assert(self.entries@.take(k as int) =~= self.entries@);
        }
        if found {
            Some(out)
        } else {
            None
        }
    }
}

impl ProposerMap {
    /// The validator expected to propose at `slot`.
    pub fn get(&self, slot: u64) -> (r: Option<usize>)
        ensures
            match r {
                Some(v) => self@.contains_key(slot) && v == self@[slot],
                None => !self@.contains_key(slot),
            },
    {
        if slot < self.start_slot {
            return None;
        }
        let offset = slot - self.start_slot;
        if offset >= self.proposers.len() as u64 {
            return None;
        }
        Some(self.proposers[offset as usize])
    }
}

} // verus!
