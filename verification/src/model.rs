//! The mathematical model of the registry: what a command does to the
//! mapping, and what a whole log does.

use vstd::prelude::*;
use crate::command::{AssignEntryView, KVCommand, KVCommandView};

verus! {

/// The mapping that every node maintains: number to assignment.
pub type Mapping = Map<u32, AssignEntryView>;

/// The effect of one command on the mapping.
pub open spec fn apply_command(mapping: Mapping, command: KVCommandView) -> Mapping {
    match command {
        KVCommandView::Assign(entry) => mapping.insert(entry.num, entry),
        KVCommandView::UnAssign(num) => mapping.remove(num),
    }
}

/// The effect of a log on the mapping: its commands applied from first to last.
pub open spec fn replay(mapping: Mapping, log: Seq<KVCommandView>) -> Mapping
    decreases log.len(),
{
    if log.len() == 0 {
        mapping
    } else {
        apply_command(replay(mapping, log.drop_last()), log.last())
    }
}

/// The mathematical values of a run of commands.
pub open spec fn commands_view(commands: Seq<KVCommand>) -> Seq<KVCommandView> {
    commands.map_values(|command: KVCommand| command@)
}

/// Every entry is stored under its own number.
pub open spec fn keyed_by_num(mapping: Mapping) -> bool {
    forall|num: u32| #[trigger] mapping.contains_key(num) ==> mapping[num].num == num
}

/// No host holds two numbers at once.
pub open spec fn hosts_unique(mapping: Mapping) -> bool {
    forall|a: u32, b: u32|
        #![trigger mapping[a], mapping[b]]
        mapping.contains_key(a) && mapping.contains_key(b) && mapping[a].host == mapping[b].host
            ==> a == b
}

/// Some live entry belongs to `host`.
pub open spec fn has_host(mapping: Mapping, host: Seq<char>) -> bool {
    exists|num: u32| #[trigger] mapping.contains_key(num) && mapping[num].host == host
}

/// Replaying one more command is replaying the log and then applying it.
pub proof fn lemma_replay_push(mapping: Mapping, log: Seq<KVCommandView>, command: KVCommandView)
    ensures
        replay(mapping, log.push(command)) == apply_command(replay(mapping, log), command),
{
    assert(log.push(command).drop_last() =~= log);
}

/// Replaying a concatenation is replaying the first part and then the second.
pub proof fn lemma_replay_concat(
    mapping: Mapping,
    first: Seq<KVCommandView>,
    second: Seq<KVCommandView>,
)
    ensures
        replay(mapping, first + second) == replay(replay(mapping, first), second),
    decreases second.len(),
{
    if second.len() == 0 {
        assert(first + second =~= first);
    } else {
        assert((first + second).drop_last() =~= first + second.drop_last());
        lemma_replay_concat(mapping, first, second.drop_last());
    }
}

/// A command keeps every entry under its own number.
pub proof fn lemma_apply_keeps_keys(mapping: Mapping, command: KVCommandView)
    requires
        keyed_by_num(mapping),
    ensures
        keyed_by_num(apply_command(mapping, command)),
{
}

/// A log keeps every entry under its own number.
pub proof fn lemma_replay_keeps_keys(mapping: Mapping, log: Seq<KVCommandView>)
    requires
        keyed_by_num(mapping),
    ensures
        keyed_by_num(replay(mapping, log)),
    decreases log.len(),
{
    if log.len() > 0 {
        lemma_replay_keeps_keys(mapping, log.drop_last());
        lemma_apply_keeps_keys(replay(mapping, log.drop_last()), log.last());
    }
}

/// The removal at position `at` of the log found nothing to remove: it
/// names `num`, and the commands before it, replayed from empty, leave no
/// entry under that number.
pub open spec fn removes_nothing(log: Seq<KVCommandView>, at: int, num: u32) -> bool {
    &&& 0 <= at < log.len()
    &&& log[at] == KVCommandView::UnAssign(num)
    &&& !replay(Mapping::empty(), log.take(at)).contains_key(num)
}

/// Among the first `upto` commands of the log, some removal of `num` found
/// nothing to remove.
pub open spec fn removed_in_vain(log: Seq<KVCommandView>, upto: int, num: u32) -> bool {
    exists|at: int| 0 <= at < upto && removes_nothing(log, at, num)
}

/// The log leaves a tombstone for `num`: some removal of it found nothing to
/// remove, and the log does not hold the number in the end.
pub open spec fn is_tombstone(log: Seq<KVCommandView>, num: u32) -> bool {
    &&& removed_in_vain(log, log.len() as int, num)
    &&& !replay(Mapping::empty(), log).contains_key(num)
}

/// The tombstones of a log, as a set: each number is in it once, however
/// often the log removed it.
pub open spec fn surviving_tombstones(log: Seq<KVCommandView>) -> Set<u32> {
    Set::new(|num: u32| is_tombstone(log, num))
}

/// One more command adds at most its own vain removal.
pub proof fn lemma_removed_in_vain_step(log: Seq<KVCommandView>, upto: int, num: u32)
    requires
        0 <= upto < log.len(),
    ensures
        removed_in_vain(log, upto + 1, num) <==> removed_in_vain(log, upto, num)
            || removes_nothing(log, upto, num),
{
    if removed_in_vain(log, upto + 1, num) {
        let at = choose|at: int| 0 <= at < upto + 1 && removes_nothing(log, at, num);
        if at < upto {
            assert(removed_in_vain(log, upto, num));
        }
    }
    if removed_in_vain(log, upto, num) {
        let at = choose|at: int| 0 <= at < upto && removes_nothing(log, at, num);
        assert(0 <= at < upto + 1 && removes_nothing(log, at, num));
    }
}

/// A base mapping overlaid with a newer delta: the delta's entries win, and
/// the numbers the delta marks as deleted are gone.
pub open spec fn merged(base: Mapping, delta: Mapping, deleted: Set<u32>) -> Mapping {
    base.union_prefer_right(delta).remove_keys(deleted)
}

/// No tombstone names a number that the mapping holds.
pub open spec fn tombstones_disjoint(mapping: Mapping, deleted: Set<u32>) -> bool {
    forall|num: u32| #[trigger] deleted.contains(num) ==> !mapping.contains_key(num)
}

} // verus!
