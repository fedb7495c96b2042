//! What holds of the registry whatever the inputs: the statements that
//! relate its functions to each other and to the decided log.

use vstd::prelude::*;
use crate::command::{AssignEntryView, KVCommandView};
use crate::model::{
    apply_command, has_host, hosts_unique, is_tombstone, lemma_replay_concat, lemma_replay_push,
    merged, removes_nothing, replay, surviving_tombstones, tombstones_disjoint, Mapping,
};
use crate::server::{entry_effect, run, LogEntryView, Replica, Server};

verus! {

/// A replica follows a log when its mapping is the replay of exactly the
/// first `decided_idx` commands of that log.
pub open spec fn in_sync(replica: Replica, log: Seq<KVCommandView>) -> bool {
    &&& replica.decided_idx <= log.len()
    &&& replica.mapping == replay(Mapping::empty(), log.take(replica.decided_idx as int))
}

/// Entries read from position `from` on are true to a log when each decided
/// command is the log's command at the position it is read for, and each
/// snapshot is the replay of the log below the index it covers.
pub open spec fn true_to_log(entries: Seq<LogEntryView>, from: nat, log: Seq<KVCommandView>) -> bool
    decreases entries.len(),
{
    if entries.len() == 0 {
        true
    } else {
        let rest = entries.drop_first();
        match entries.first() {
            LogEntryView::Decided(command) => {
                &&& from < log.len()
                &&& log[from as int] == command
                &&& true_to_log(rest, from + 1, log)
            },
            LogEntryView::Snapshotted(idx, mapping) => {
                &&& idx <= log.len()
                &&& mapping == replay(Mapping::empty(), log.take(idx as int))
                &&& true_to_log(rest, if idx > from { idx as nat } else { from }, log)
            },
            _ => true_to_log(rest, from, log),
        }
    }
}

/// Apply once, in order: a replica that follows the decided log still
/// follows it after any run of entries that are true to that log. Its
/// mapping is at every moment the replay of a prefix of the log, with no
/// command left out, repeated or applied out of turn.
pub proof fn lemma_follows_log(
    replica: Replica,
    entries: Seq<LogEntryView>,
    log: Seq<KVCommandView>,
)
    requires
        in_sync(replica, log),
        true_to_log(entries, replica.decided_idx, log),
    ensures
        in_sync(run(replica, entries).0, log),
    decreases entries.len(),
{
    if entries.len() > 0 {
        match entry_effect(replica, entries.first()) {
            Ok(next) => {
                match entries.first() {
                    LogEntryView::Decided(command) => {
                        let idx = replica.decided_idx as int;
                        assert(log.take(idx + 1) =~= log.take(idx).push(command));
                        lemma_replay_push(Mapping::empty(), log.take(idx), command);
                    },
                    _ => {},
                }
                lemma_follows_log(next, entries.drop_first(), log);
            },
            Err(_) => {},
        }
    }
}

/// A run of entries never takes a replica back: the decided index does
/// not decrease, so no position is applied a second time.
pub proof fn lemma_run_never_goes_back(replica: Replica, entries: Seq<LogEntryView>)
    ensures
        run(replica, entries).0.decided_idx >= replica.decided_idx,
    decreases entries.len(),
{
    if entries.len() > 0 {
        match entry_effect(replica, entries.first()) {
            Ok(next) => {
                lemma_run_never_goes_back(next, entries.drop_first());
            },
            Err(_) => {},
        }
    }
}

/// A command that is not decided is never applied: a run stops in front of
/// it and leaves the replica as the entries before it made it.
pub proof fn lemma_undecided_stops_run(
    replica: Replica,
    before: Seq<LogEntryView>,
    command: KVCommandView,
    after: Seq<LogEntryView>,
)
    ensures
        run(replica, before + seq![LogEntryView::Undecided(command)] + after).0 == run(
            replica,
            before,
        ).0,
        run(replica, before + seq![LogEntryView::Undecided(command)] + after).1 is Some,
    decreases before.len(),
{
    let entries = before + seq![LogEntryView::Undecided(command)] + after;
    if before.len() == 0 {
        assert(entries.first() == LogEntryView::Undecided(command));
    } else {
        assert(entries.first() == before.first());
        assert(entries.drop_first() =~= before.drop_first() + seq![
            LogEntryView::Undecided(command),
        ] + after);
        match entry_effect(replica, before.first()) {
            Ok(next) => {
                lemma_undecided_stops_run(next, before.drop_first(), command, after);
            },
            Err(_) => {},
        }
    }
}

/// Two replicas that follow the same log and stand at the same decided
/// index hold the same mapping.
pub proof fn lemma_replicas_agree(first: Replica, second: Replica, log: Seq<KVCommandView>)
    requires
        in_sync(first, log),
        in_sync(second, log),
        first.decided_idx == second.decided_idx,
    ensures
        first.mapping == second.mapping,
{
}

/// Of the nodes that are given the same report of who leads, at most one
/// takes itself for the leader.
pub proof fn lemma_one_leader_per_report(first: u64, second: u64, leader: Option<u64>)
    requires
        Server::leads(first, leader),
        Server::leads(second, leader),
    ensures
        first == second,
{
}

/// A snapshot's tombstones spare its live entries: no tombstone of a log
/// names a number that the replayed log holds. A number that was removed
/// and then assigned again is not recorded as deleted.
pub proof fn lemma_tombstones_spare_the_living(log: Seq<KVCommandView>)
    ensures
        tombstones_disjoint(replay(Mapping::empty(), log), surviving_tombstones(log)),
{
}

/// Removing a number again and again leaves one tombstone: a log that only
/// removes `num`, at least once, has `num` as its only tombstone.
pub proof fn lemma_repeated_removal_is_one_tombstone(log: Seq<KVCommandView>, num: u32)
    requires
        log.len() > 0,
        forall|i: int| 0 <= i < log.len() ==> #[trigger] log[i] == KVCommandView::UnAssign(num),
    ensures
        surviving_tombstones(log) == set![num],
{
    lemma_only_removals(log);
    assert(log.take(0) =~= Seq::empty());
    assert(removes_nothing(log, 0, num));
    assert forall|other: u32| is_tombstone(log, other) implies other == num by {
        let at = choose|at: int| 0 <= at < log.len() && removes_nothing(log, at, other);
        assert(log[at] == KVCommandView::UnAssign(num));
    }
    assert(is_tombstone(log, num));
    assert(surviving_tombstones(log) =~= set![num]);
}

/// A log of removals alone, replayed from empty, holds nothing.
proof fn lemma_only_removals(log: Seq<KVCommandView>)
    requires
        forall|i: int| 0 <= i < log.len() ==> (#[trigger] log[i]) is UnAssign,
    ensures
        replay(Mapping::empty(), log) == Mapping::empty(),
    decreases log.len(),
{
    if log.len() > 0 {
        assert(log[log.len() - 1] is UnAssign);
        lemma_only_removals(log.drop_last());
        assert(replay(Mapping::empty(), log) =~= Mapping::empty());
    }
}

/// Rebuilding from storage loses nothing: the live entries of the snapshot
/// of a prefix of the log, with the rest of the log replayed on them, are
/// the replay of the whole log. With nothing left to replay, the snapshot's
/// live entries alone are the replay of the log.
pub proof fn lemma_rebuild_is_replay(prefix: Seq<KVCommandView>, suffix: Seq<KVCommandView>)
    ensures
        replay(replay(Mapping::empty(), prefix), suffix) == replay(
            Mapping::empty(),
            prefix + suffix,
        ),
        replay(replay(Mapping::empty(), prefix), Seq::empty()) == replay(Mapping::empty(), prefix),
{
    lemma_replay_concat(Mapping::empty(), prefix, suffix);
}

/// The command assigns or removes `num`.
pub open spec fn touches(command: KVCommandView, num: u32) -> bool {
    match command {
        KVCommandView::Assign(entry) => entry.num == num,
        KVCommandView::UnAssign(removed) => removed == num,
    }
}

/// The command assigns `num`.
pub open spec fn assigns(command: KVCommandView, num: u32) -> bool {
    command matches KVCommandView::Assign(entry) && entry.num == num
}

/// Two mappings say the same of `num`.
pub open spec fn same_at(first: Mapping, second: Mapping, num: u32) -> bool {
    &&& first.contains_key(num) == second.contains_key(num)
    &&& first.contains_key(num) ==> first[num] == second[num]
}

/// The log never removes a number that it assigned earlier itself.
pub open spec fn removes_only_older_entries(log: Seq<KVCommandView>) -> bool {
    forall|i: int, j: int|
        #![trigger log[i], log[j]]
        0 <= i < j < log.len() && log[j] is UnAssign ==> !assigns(log[i], log[j]->UnAssign_0)
}

/// A log that leaves a number alone leaves the mapping as it was there.
proof fn lemma_untouched(base: Mapping, log: Seq<KVCommandView>, num: u32)
    requires
        forall|i: int| 0 <= i < log.len() ==> !touches(#[trigger] log[i], num),
    ensures
        same_at(replay(base, log), base, num),
    decreases log.len(),
{
    if log.len() > 0 {
        assert(!touches(log[log.len() - 1], num));
        lemma_untouched(base, log.drop_last(), num);
    }
}

/// Once a log has assigned or removed a number, what the mapping says of
/// that number no longer depends on where the log started.
proof fn lemma_touched(first: Mapping, second: Mapping, log: Seq<KVCommandView>, num: u32)
    requires
        exists|i: int| 0 <= i < log.len() && touches(#[trigger] log[i], num),
    ensures
        same_at(replay(first, log), replay(second, log), num),
    decreases log.len(),
{
    let last = log.len() - 1;
    if !touches(log[last], num) {
        let i = choose|i: int| 0 <= i < log.len() && touches(#[trigger] log[i], num);
        assert(touches(log.drop_last()[i], num));
        lemma_touched(first, second, log.drop_last(), num);
    }
}

/// A log that never assigns a number, replayed from empty, does not hold it.
proof fn lemma_never_assigned(log: Seq<KVCommandView>, num: u32)
    requires
        forall|i: int| 0 <= i < log.len() ==> !assigns(#[trigger] log[i], num),
    ensures
        !replay(Mapping::empty(), log).contains_key(num),
    decreases log.len(),
{
    if log.len() > 0 {
        assert(!assigns(log[log.len() - 1], num));
        lemma_never_assigned(log.drop_last(), num);
    }
}

/// A number that the log assigns and does not remove afterwards is held.
proof fn lemma_assigned_stays(log: Seq<KVCommandView>, at: int, num: u32)
    requires
        0 <= at < log.len(),
        assigns(log[at], num),
        forall|j: int| at < j < log.len() ==> #[trigger] log[j] != KVCommandView::UnAssign(num),
    ensures
        replay(Mapping::empty(), log).contains_key(num),
    decreases log.len(),
{
    let last = log.len() - 1;
    if at < last {
        assert(log[last] != KVCommandView::UnAssign(num));
        assert(log.drop_last()[at] == log[at]);
        lemma_assigned_stays(log.drop_last(), at, num);
    }
}

/// When a merge is a replay: a snapshot of a log that never removes a number
/// it assigned itself, merged into any base, gives what replaying that log
/// on the base gives. (A log that assigns a number and removes it again
/// leaves no tombstone, and the merge keeps the base's entry.)
pub proof fn lemma_merge_is_replay(base: Mapping, log: Seq<KVCommandView>)
    requires
        removes_only_older_entries(log),
    ensures
        merged(base, replay(Mapping::empty(), log), surviving_tombstones(log)) == replay(
            base,
            log,
        ),
{
    let overlay = replay(Mapping::empty(), log);
    let deleted = surviving_tombstones(log);
    let merge = merged(base, overlay, deleted);
    let target = replay(base, log);
    assert forall|num: u32| same_at(merge, target, num) by {
        if forall|i: int| 0 <= i < log.len() ==> !touches(#[trigger] log[i], num) {
            lemma_untouched(base, log, num);
            lemma_untouched(Mapping::empty(), log, num);
            if is_tombstone(log, num) {
                let at = choose|at: int| 0 <= at < log.len() && removes_nothing(log, at, num);
                assert(touches(log[at], num));
            }
        } else {
            lemma_touched(base, Mapping::empty(), log, num);
            if !overlay.contains_key(num) {
                if exists|i: int| 0 <= i < log.len() && assigns(#[trigger] log[i], num) {
                    let i = choose|i: int| 0 <= i < log.len() && assigns(#[trigger] log[i], num);
                    assert forall|j: int| i < j < log.len() implies #[trigger] log[j]
                        != KVCommandView::UnAssign(num) by {
                        if log[j] == KVCommandView::UnAssign(num) {
                            assert(!assigns(log[i], log[j]->UnAssign_0));
                        }
                    }
                    lemma_assigned_stays(log, i, num);
                }
                let at = choose|at: int| 0 <= at < log.len() && touches(#[trigger] log[at], num);
                assert(log[at] == KVCommandView::UnAssign(num));
                assert forall|i: int| 0 <= i < log.take(at).len() implies !assigns(
                    #[trigger] log.take(at)[i],
                    num,
                ) by {
                    assert(!assigns(log[i], num));
                }
                lemma_never_assigned(log.take(at), num);
                assert(removes_nothing(log, at, num));
                assert(deleted.contains(num));
            }
        }
    }
    assert forall|num: u32| #[trigger] merge.dom().contains(num) == target.dom().contains(num) by {
        assert(same_at(merge, target, num));
    }
    assert forall|num: u32| #[trigger] merge.dom().contains(num) implies merge[num]
        == target[num] by {
        assert(same_at(merge, target, num));
    }
    assert(merge =~= target);
}

/// After a merge no tombstone names a live entry, whatever the base and the
/// delta were: none is kept, and none of the delta's names an entry of the
/// merged mapping.
pub proof fn lemma_merge_leaves_no_tombstone(base: Mapping, delta: Mapping, deleted: Set<u32>)
    ensures
        tombstones_disjoint(merged(base, delta, deleted), Set::<u32>::empty()),
        tombstones_disjoint(merged(base, delta, deleted), deleted),
{
}

/// Where no host holds two numbers, a lookup has one answer: two live
/// entries of the same host are the same entry.
pub proof fn lemma_lookup_has_one_answer(mapping: Mapping, host: Seq<char>, first: u32, second: u32)
    requires
        hosts_unique(mapping),
        mapping.contains_key(first),
        mapping[first].host == host,
        mapping.contains_key(second),
        mapping[second].host == host,
    ensures
        first == second,
{
}

/// Assigning keeps hosts unique as long as the host holds no other number.
pub proof fn lemma_assign_keeps_hosts_unique(mapping: Mapping, entry: AssignEntryView)
    requires
        hosts_unique(mapping),
        forall|num: u32| #[trigger]
            mapping.contains_key(num) && mapping[num].host == entry.host ==> num == entry.num,
    ensures
        hosts_unique(apply_command(mapping, KVCommandView::Assign(entry))),
{
    let after = apply_command(mapping, KVCommandView::Assign(entry));
    assert forall|a: u32, b: u32|
        after.contains_key(a) && after.contains_key(b) && after[a].host == after[b].host implies a
        == b by {
        if a != entry.num && b != entry.num {
            assert(mapping.contains_key(a) && mapping.contains_key(b));
            assert(mapping[a].host == mapping[b].host);
        } else if a != entry.num {
            assert(mapping.contains_key(a));
        } else if b != entry.num {
            assert(mapping.contains_key(b));
        }
    }
}

/// Unassigning keeps hosts unique.
pub proof fn lemma_unassign_keeps_hosts_unique(mapping: Mapping, num: u32)
    requires
        hosts_unique(mapping),
    ensures
        hosts_unique(apply_command(mapping, KVCommandView::UnAssign(num))),
{
    let after = apply_command(mapping, KVCommandView::UnAssign(num));
    assert forall|a: u32, b: u32|
        after.contains_key(a) && after.contains_key(b) && after[a].host == after[b].host implies a
        == b by {
        assert(mapping.contains_key(a) && mapping.contains_key(b));
        assert(mapping[a].host == mapping[b].host);
    }
}

/// After a host's entry is unassigned, and where no host holds two numbers,
/// the host is gone from the registry.
pub proof fn lemma_unassigned_host_is_gone(mapping: Mapping, num: u32)
    requires
        hosts_unique(mapping),
        mapping.contains_key(num),
    ensures
        !has_host(apply_command(mapping, KVCommandView::UnAssign(num)), mapping[num].host),
{
    let after = apply_command(mapping, KVCommandView::UnAssign(num));
    assert forall|other: u32| #[trigger] after.contains_key(other) implies after[other].host
        != mapping[num].host by {
        assert(mapping.contains_key(other));
        if mapping[other].host == mapping[num].host {
            assert(other == num);
        }
    }
}

} // verus!
