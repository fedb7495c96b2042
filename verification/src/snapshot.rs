//! Snapshots: the compacted effect of a run of commands.

use std::collections::{HashMap, HashSet};
use vstd::prelude::*;
use vstd::std_specs::iter::IteratorSpec;
use crate::command::{AssignEntry, KVCommand, KVCommandView};
use crate::database::table_view;
use crate::model::{
    commands_view, keyed_by_num, lemma_removed_in_vain_step, lemma_replay_keeps_keys,
    lemma_replay_push, merged, removed_in_vain, removes_nothing, replay, surviving_tombstones,
    tombstones_disjoint, Mapping,
};

verus! {

broadcast use vstd::std_specs::hash::group_hash_axioms;

/// What a run of commands leaves behind: the entries that are live at its
/// end, and the set of numbers it removed without having assigned them
/// itself. No number is in that set twice.
#[derive(Debug)]
pub struct KVSnapshot {
    snapshotted: HashMap<u32, AssignEntry>,
    deleted_keys: Vec<u32>,
}

/// The commands that assign each of `entries` in turn.
pub open spec fn assignments(entries: Seq<AssignEntry>) -> Seq<KVCommandView> {
    entries.map_values(|entry: AssignEntry| KVCommandView::Assign(entry@))
}

/// A sequence without repeats stays so when a value it lacks is added.
proof fn lemma_push_keeps_distinct(nums: Seq<u32>, num: u32)
    requires
        nums.no_duplicates(),
        !nums.contains(num),
    ensures
        nums.push(num).no_duplicates(),
{
    let longer = nums.push(num);
    assert forall|i: int, j: int| 0 <= i < longer.len() && 0 <= j < longer.len() && i != j implies longer[i]
        != longer[j] by {
        if i < nums.len() && j < nums.len() {
            assert(nums[i] != nums[j]);
        } else if i < nums.len() {
            assert(nums.contains(nums[i]));
        } else {
            assert(nums.contains(nums[j]));
        }
    }
}

/// Keeps, once each, the numbers that `table` holds no entry for.
fn distinct_absent(nums: &Vec<u32>, table: &HashMap<u32, AssignEntry>) -> (kept: Vec<u32>)
    ensures
        kept@.no_duplicates(),
        kept@.to_set() == nums@.to_set().difference(table_view(table@).dom()),
{
    let mut kept: Vec<u32> = Vec::new();
    let mut seen: HashSet<u32> = HashSet::new();
    let ghost live = table_view(table@);
    assert(nums@.take(0) =~= Seq::empty());
    assert(kept@.to_set() =~= nums@.take(0).to_set().difference(live.dom()));
    let mut j: usize = 0;
    while j < nums.len()
        invariant
            j <= nums.len(),
            live == table_view(table@),
            kept@.no_duplicates(),
            seen@ == kept@.to_set(),
            kept@.to_set() == nums@.take(j as int).to_set().difference(live.dom()),
        decreases nums.len() - j,
    {
        let num = nums[j];
        let ghost before = kept@;
        proof {
            assert(nums@.take(j + 1) =~= nums@.take(j as int).push(num));
            nums@.take(j as int).lemma_push_to_set_commute(num);
            assert(live.contains_key(num) == table@.contains_key(num));
        }
        if !table.contains_key(&num) {
            if seen.insert(num) {
                kept.push(num);
                proof {
                    lemma_push_keeps_distinct(before, num);
                    before.lemma_push_to_set_commute(num);
                }
            }
        }
        assert(kept@.to_set() =~= nums@.take(j + 1).to_set().difference(live.dom()));
        j += 1;
    }
    assert(nums@.take(j as int) =~= nums@);
    kept
}

impl Clone for KVSnapshot {
    fn clone(&self) -> (copy: Self)
        ensures
            copy.snapshotted_view() == self.snapshotted_view(),
            copy.deleted_keys_view() == self.deleted_keys_view(),
    {
        proof {
            use_type_invariant(self);
        }
        KVSnapshot { snapshotted: self.snapshotted.clone(), deleted_keys: self.deleted_keys.clone() }
    }
}

impl KVSnapshot {
    #[verifier::type_invariant]
    spec fn well_formed(self) -> bool {
        &&& keyed_by_num(table_view(self.snapshotted@))
        &&& self.deleted_keys@.no_duplicates()
        &&& tombstones_disjoint(table_view(self.snapshotted@), self.deleted_keys@.to_set())
    }

    /// The live entries, by number.
    pub closed spec fn snapshotted_view(&self) -> Mapping {
        table_view(self.snapshotted@)
    }

    /// The set of recorded tombstones.
    pub closed spec fn deleted_keys_view(&self) -> Set<u32> {
        self.deleted_keys@.to_set()
    }

    /// A snapshot of nothing: no entry, no tombstone.
    pub fn new() -> (snapshot: Self)
        ensures
            snapshot.snapshotted_view() == Mapping::empty(),
            snapshot.deleted_keys_view() == Set::<u32>::empty(),
            keyed_by_num(snapshot.snapshotted_view()),
    {
        let snapshot = KVSnapshot { snapshotted: HashMap::new(), deleted_keys: Vec::new() };
        assert(table_view(snapshot.snapshotted@) =~= Mapping::empty());
        assert(snapshot.deleted_keys@.to_set() =~= Set::<u32>::empty());
        snapshot
    }

    /// Rebuilds a snapshot from its stored parts. Each entry goes under its
    /// own number, a later one replacing an earlier one with the same
    /// number. A tombstone is kept once, however often it is given, and not
    /// at all for a number that has an entry.
    pub fn from_parts(entries: Vec<AssignEntry>, deleted_keys: Vec<u32>) -> (snapshot: Self)
        ensures
            snapshot.snapshotted_view() == replay(Mapping::empty(), assignments(entries@)),
            snapshot.deleted_keys_view() == deleted_keys@.to_set().difference(
                snapshot.snapshotted_view().dom(),
            ),
            tombstones_disjoint(snapshot.snapshotted_view(), snapshot.deleted_keys_view()),
            keyed_by_num(snapshot.snapshotted_view()),
    {
        let ghost log = assignments(entries@);
        let mut snapshotted: HashMap<u32, AssignEntry> = HashMap::new();
        assert(table_view(snapshotted@) =~= Mapping::empty());
        assert(log.take(0) =~= Seq::empty());
        let mut i: usize = 0;
        while i < entries.len()
            invariant
                i <= entries.len(),
                log == assignments(entries@),
                table_view(snapshotted@) == replay(Mapping::empty(), log.take(i as int)),
            decreases entries.len() - i,
        {
            let ghost table = snapshotted@;
            proof {
                assert(log.take(i + 1) =~= log.take(i as int).push(log[i as int]));
                lemma_replay_push(Mapping::empty(), log.take(i as int), log[i as int]);
            }
            let entry = entries[i].clone();
            snapshotted.insert(entry.num, entry);
            assert(table_view(snapshotted@) =~= table_view(table).insert(entry.num, entry@));
            i += 1;
        }
        assert(log.take(i as int) =~= log);
        proof {
            lemma_replay_keeps_keys(Mapping::empty(), log);
        }
        let kept = distinct_absent(&deleted_keys, &snapshotted);
        KVSnapshot { snapshotted, deleted_keys: kept }
    }

    /// The live entries, in no particular order: one for each number held.
    pub fn entries(&self) -> (entries: Vec<AssignEntry>)
        ensures
            entries@.len() == self.snapshotted_view().dom().len(),
            forall|i: int|
                0 <= i < entries@.len() ==> self.snapshotted_view().contains_key(
                    (#[trigger] entries@[i]).num,
                ) && self.snapshotted_view()[entries@[i].num] == entries@[i]@,
            forall|num: u32| #[trigger]
                self.snapshotted_view().contains_key(num) ==> exists|i: int|
                    0 <= i < entries@.len() && (#[trigger] entries@[i]).num == num,
    {
        proof {
            use_type_invariant(self);
        }
        let ghost stored = self.snapshotted.values().remaining().unref();
        let mut entries: Vec<AssignEntry> = Vec::new();
        for entry in it: self.snapshotted.values()
            invariant
                it.seq().unref() == stored,
                stored.to_set() == self.snapshotted@.values(),
                stored.len() == self.snapshotted@.dom().len(),
                keyed_by_num(table_view(self.snapshotted@)),
                entries@ == stored.take(it.index()),
        {
            assert(stored[it.index()] == *entry);
            assert(stored.take(it.index() + 1) =~= stored.take(it.index()).push(*entry));
            entries.push(entry.clone());
        }
        proof {
            assert(stored.take(stored.len() as int) =~= stored);
            assert(table_view(self.snapshotted@).dom() =~= self.snapshotted@.dom());
            assert forall|i: int| 0 <= i < entries@.len() implies self.snapshotted_view().contains_key(
                (#[trigger] entries@[i]).num,
            ) && self.snapshotted_view()[entries@[i].num] == entries@[i]@ by {
                assert(stored.to_set().contains(stored[i]));
                let num = choose|num: u32|
                    self.snapshotted@.contains_key(num) && #[trigger] self.snapshotted@[num]
                        == stored[i];
                assert(table_view(self.snapshotted@).contains_key(num));
            }
            assert forall|num: u32| #[trigger]
                self.snapshotted_view().contains_key(num) implies exists|i: int|
                0 <= i < entries@.len() && (#[trigger] entries@[i]).num == num by {
                let entry = self.snapshotted@[num];
                assert(self.snapshotted@.values().contains(entry));
                assert(stored.to_set().contains(entry));
                let i = choose|i: int| 0 <= i < stored.len() && stored[i] == entry;
                assert(entries@[i].num == num);
            }
        }
        entries
    }

    /// The recorded tombstones, each once, in no particular order.
    pub fn deleted_keys(&self) -> (deleted_keys: Vec<u32>)
        ensures
            deleted_keys@.no_duplicates(),
            deleted_keys@.to_set() == self.deleted_keys_view(),
            deleted_keys@.len() == self.deleted_keys_view().len(),
    {
        proof {
            use_type_invariant(self);
            self.deleted_keys@.unique_seq_to_set();
        }
        self.deleted_keys.clone()
    }

    /// The entry stored under `num`, if any.
    pub fn get(&self, num: u32) -> (found: Option<AssignEntry>)
        ensures
            match found {
                Some(entry) => self.snapshotted_view().contains_key(num)
                    && self.snapshotted_view()[num] == entry@,
                None => !self.snapshotted_view().contains_key(num),
            },
    {
        match self.snapshotted.get(&num) {
            Some(entry) => Some(entry.clone()),
            None => None,
        }
    }

    /// The table of live entries, for building a registry from it.
    pub(crate) fn table(&self) -> (table: &HashMap<u32, AssignEntry>)
        ensures
            table_view(table@) == self.snapshotted_view(),
            keyed_by_num(table_view(table@)),
    {
        proof {
            use_type_invariant(self);
        }
        &self.snapshotted
    }

    /// Compacts a run of commands. The live entries are those of the run
    /// replayed on an empty mapping. The tombstones are the numbers of which
    /// some removal found nothing to remove and which the run does not hold
    /// in the end, each recorded once.
    pub fn create(entries: &[KVCommand]) -> (snapshot: Self)
        ensures
            snapshot.snapshotted_view() == replay(Mapping::empty(), commands_view(entries@)),
            snapshot.deleted_keys_view() == surviving_tombstones(commands_view(entries@)),
            tombstones_disjoint(snapshot.snapshotted_view(), snapshot.deleted_keys_view()),
            keyed_by_num(snapshot.snapshotted_view()),
    {
        let ghost log = commands_view(entries@);
        let mut snapshotted: HashMap<u32, AssignEntry> = HashMap::new();
        let mut removals: Vec<u32> = Vec::new();
        let mut recorded: HashSet<u32> = HashSet::new();
        assert(table_view(snapshotted@) =~= Mapping::empty());
        assert(log.take(0) =~= Seq::empty());
        assert(recorded@ =~= removals@.to_set());
        let mut i: usize = 0;
        while i < entries.len()
            invariant
                i <= entries.len(),
                log == commands_view(entries@),
                table_view(snapshotted@) == replay(Mapping::empty(), log.take(i as int)),
                recorded@ == removals@.to_set(),
                forall|num: u32| #[trigger]
                    recorded@.contains(num) <==> removed_in_vain(log, i as int, num),
            decreases entries.len() - i,
        {
            let ghost before = log.take(i as int);
            let ghost table = snapshotted@;
            let ghost known = recorded@;
            proof {
                assert(log.take(i + 1) =~= before.push(log[i as int]));
                lemma_replay_push(Mapping::empty(), before, log[i as int]);
                assert forall|num: u32|
                    removed_in_vain(log, i + 1, num) <==> removed_in_vain(log, i as int, num)
                        || removes_nothing(log, i as int, num) by {
                    lemma_removed_in_vain_step(log, i as int, num);
                }
            }
            match &entries[i] {
                KVCommand::Assign(entry) => {
                    snapshotted.insert(entry.num, entry.clone());
                    assert(table_view(snapshotted@) =~= table_view(table).insert(
                        entry.num,
                        entry@,
                    ));
                },
                KVCommand::UnAssign(num) => {
                    let removed = snapshotted.remove(num);
                    assert(table_view(snapshotted@) =~= table_view(table).remove(*num));
                    assert(table_view(table).contains_key(*num) == table.contains_key(*num));
                    if removed.is_none() {
                        if recorded.insert(*num) {
                            proof {
                                removals@.lemma_push_to_set_commute(*num);
                            }
                            removals.push(*num);
                        }
                        assert(recorded@ == known.insert(*num));
                    }
                },
            }
            assert forall|num: u32| #[trigger]
                recorded@.contains(num) <==> removed_in_vain(log, i + 1, num) by {
                assert(known.contains(num) <==> removed_in_vain(log, i as int, num));
            }
            i += 1;
        }
        assert(log.take(i as int) =~= log);
        let kept = distinct_absent(&removals, &snapshotted);
        proof {
            lemma_replay_keeps_keys(Mapping::empty(), log);
            assert(table_view(snapshotted@).dom() =~= replay(Mapping::empty(), log).dom());
            assert(kept@.to_set() =~= surviving_tombstones(log));
        }
        KVSnapshot { snapshotted, deleted_keys: kept }
    }

    /// Folds a newer delta into this snapshot: the delta's entries replace
    /// those stored under the same number, the numbers it marks as deleted
    /// are removed, and no tombstone is kept.
    pub fn merge(&mut self, delta: Self)
        ensures
            final(self).snapshotted_view() == merged(
                old(self).snapshotted_view(),
                delta.snapshotted_view(),
                delta.deleted_keys_view(),
            ),
            final(self).deleted_keys_view() == Set::<u32>::empty(),
            tombstones_disjoint(final(self).snapshotted_view(), final(self).deleted_keys_view()),
            keyed_by_num(final(self).snapshotted_view()),
    {
        proof {
            use_type_invariant(&*self);
            use_type_invariant(&delta);
        }
        let ghost base = table_view(self.snapshotted@);
        let ghost overlay = table_view(delta.snapshotted@);
        // The table is taken out while it changes: what stays behind is empty,
        // and the snapshot is well formed at every step.
        let mut table: HashMap<u32, AssignEntry> = HashMap::new();
        assert(table_view(table@) =~= Mapping::empty());
        std::mem::swap(&mut self.snapshotted, &mut table);

        let ghost pairs = delta.snapshotted.iter().remaining();
        let ghost mut seen: Set<u32> = Set::empty();
        assert(table_view(table@) =~= base.union_prefer_right(overlay.restrict(seen)));
        for pair in it: delta.snapshotted.iter()
            invariant
                it.seq() == pairs,
                pairs == delta.snapshotted.iter().remaining(),
                overlay == table_view(delta.snapshotted@),
                keyed_by_num(base),
                keyed_by_num(overlay),
                table_view(table@) == base.union_prefer_right(overlay.restrict(seen)),
                forall|i: int| 0 <= i < it.index() ==> seen.contains(*(#[trigger] pairs[i]).0),
        {
            let (num, entry) = pair;
            let ghost previous = table@;
            assert(pairs[it.index()] == pair);
            assert(delta.snapshotted@.contains_key(*num) && delta.snapshotted@[*num] == *entry);
            table.insert(*num, entry.clone());
            proof {
                assert(overlay.contains_key(*num));
                assert(table_view(table@) =~= table_view(previous).insert(*num, entry@));
                assert(table_view(table@) =~= base.union_prefer_right(
                    overlay.restrict(seen.insert(*num)),
                ));
                seen = seen.insert(*num);
            }
        }
        proof {
            assert forall|num: u32| overlay.contains_key(num) implies seen.contains(num) by {
                assert(delta.snapshotted@.contains_key(num));
                let entry = delta.snapshotted@[num];
                assert(pairs.contains((&num, &entry)));
                let i = choose|i: int| 0 <= i < pairs.len() && pairs[i] == (&num, &entry);
                assert(seen.contains(*pairs[i].0));
            }
            assert(overlay.restrict(seen) =~= overlay);
        }

        let ghost deleted = delta.deleted_keys@;
        assert(deleted.take(0) =~= Seq::empty());
        assert(deleted.take(0).to_set() =~= Set::<u32>::empty());
        assert(table_view(table@) =~= merged(base, overlay, deleted.take(0).to_set()));
        let mut j: usize = 0;
        while j < delta.deleted_keys.len()
            invariant
                j <= delta.deleted_keys.len(),
                deleted == delta.deleted_keys@,
                keyed_by_num(base),
                keyed_by_num(overlay),
                table_view(table@) == merged(base, overlay, deleted.take(j as int).to_set()),
            decreases delta.deleted_keys.len() - j,
        {
            let ghost previous = table@;
            let num = delta.deleted_keys[j];
            table.remove(&num);
            proof {
                assert(table_view(table@) =~= table_view(previous).remove(num));
                assert(deleted.take(j + 1) =~= deleted.take(j as int).push(num));
                deleted.take(j as int).lemma_push_to_set_commute(num);
                assert(table_view(table@) =~= merged(
                    base,
                    overlay,
                    deleted.take(j + 1).to_set(),
                ));
            }
            j += 1;
        }
        assert(deleted.take(j as int) =~= deleted);
        self.deleted_keys = Vec::new();
        assert(self.deleted_keys@.to_set() =~= Set::<u32>::empty());
        self.snapshotted = table;
    }

    /// Whether the log may be compacted into snapshots at all: always.
    pub fn use_snapshots() -> (enabled: bool)
        ensures
            enabled,
    {
        true
    }
}

} // verus!
