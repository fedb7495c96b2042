//! The replicated state machine: an in-memory mapping driven by commands.

use std::collections::HashMap;
use vstd::prelude::*;
use vstd::std_specs::iter::IteratorSpec;
use crate::command::{AssignEntry, KVCommand};
use crate::model::{
    apply_command, commands_view, has_host, keyed_by_num, lemma_replay_push, replay, Mapping,
};
use crate::snapshot::KVSnapshot;

verus! {

broadcast use vstd::std_specs::hash::group_hash_axioms;

/// The mathematical value of a table of entries.
pub open spec fn table_view(table: Map<u32, AssignEntry>) -> Mapping {
    table.map_values(|entry: AssignEntry| entry@)
}

/// The host-to-number registry of one node. It knows nothing of consensus:
/// it only applies the commands it is given, in the order it is given them.
#[derive(Debug)]
pub struct Database {
    data: HashMap<u32, AssignEntry>,
}

impl View for Database {
    type V = Mapping;

    closed spec fn view(&self) -> Mapping {
        table_view(self.data@)
    }
}

impl Database {
    #[verifier::type_invariant]
    spec fn keys_are_nums(self) -> bool {
        keyed_by_num(table_view(self.data@))
    }

    /// An empty registry.
    pub fn new() -> (database: Self)
        ensures
            database@ == Mapping::empty(),
            keyed_by_num(database@),
    {
        let database = Database { data: HashMap::new() };
        assert(table_view(database.data@) =~= Mapping::empty());
        database
    }

    /// The registry that a snapshot stands for: its live entries, and
    /// nothing else. The snapshot's tombstones play no part.
    pub fn from_snapshot(snapshot: &KVSnapshot) -> (database: Self)
        ensures
            database@ == snapshot.snapshotted_view(),
            keyed_by_num(database@),
    {
        Database { data: snapshot.table().clone() }
    }

    /// Rebuilds a registry from what storage holds: the latest snapshot, if
    /// there is one, and then the commands logged after it, oldest first.
    pub fn rebuild(snapshot: Option<&KVSnapshot>, suffix: &[KVCommand]) -> (database: Self)
        ensures
            database@ == replay(
                match snapshot {
                    Some(snapshot) => snapshot.snapshotted_view(),
                    None => Mapping::empty(),
                },
                commands_view(suffix@),
            ),
            keyed_by_num(database@),
    {
        let mut database = match snapshot {
            Some(snapshot) => Database::from_snapshot(snapshot),
            None => Database::new(),
        };
        database.apply_all(suffix);
        database
    }

    /// Applies a run of commands, first to last.
    pub fn apply_all(&mut self, commands: &[KVCommand])
        ensures
            final(self)@ == replay(old(self)@, commands_view(commands@)),
            keyed_by_num(final(self)@),
    {
        proof {
            use_type_invariant(&*self);
        }
        let ghost log = commands_view(commands@);
        assert(log.take(0) =~= Seq::empty());
        let mut i: usize = 0;
        while i < commands.len()
            invariant
                i <= commands.len(),
                log == commands_view(commands@),
                self@ == replay(old(self)@, log.take(i as int)),
                keyed_by_num(self@),
            decreases commands.len() - i,
        {
            proof {
                assert(log.take(i + 1) =~= log.take(i as int).push(log[i as int]));
                lemma_replay_push(old(self)@, log.take(i as int), log[i as int]);
            }
            self.handle_command(commands[i].clone());
            i += 1;
        }
        assert(log.take(i as int) =~= log);
    }

    /// Applies one command: `Assign` stores the entry under its number,
    /// `UnAssign` removes whatever is stored under the number.
    pub fn handle_command(&mut self, command: KVCommand)
        ensures
            final(self)@ == apply_command(old(self)@, command@),
            keyed_by_num(final(self)@),
    {
        proof {
            use_type_invariant(&*self);
        }
        // The table is taken out while it changes, and put back when it is
        // whole again.
        let mut data: HashMap<u32, AssignEntry> = HashMap::new();
        assert(table_view(data@) =~= Mapping::empty());
        std::mem::swap(&mut self.data, &mut data);
        match command {
            KVCommand::Assign(entry) => {
                let num = entry.num;
                data.insert(num, entry);
                assert(table_view(data@) =~= table_view(old(self).data@).insert(num, entry@));
            },
            KVCommand::UnAssign(num) => {
                data.remove(&num);
                assert(table_view(data@) =~= table_view(old(self).data@).remove(num));
            },
        }
        self.data = data;
    }

    /// Looks a host up: an entry that belongs to `host`, if the registry
    /// holds one. The scan is linear in the size of the registry.
    pub fn query(&self, host: &String) -> (found: Option<AssignEntry>)
        ensures
            match found {
                Some(entry) => self@.contains_key(entry.num) && self@[entry.num] == entry@
                    && entry.host@ == host@,
                None => !has_host(self@, host@),
            },
    {
        proof {
            use_type_invariant(self);
        }
        let ghost entries = self.data.values().remaining().unref();
        for entry in it: self.data.values()
            invariant
                it.seq().unref() == entries,
                entries.to_set() == self.data@.values(),
                keyed_by_num(table_view(self.data@)),
                forall|i: int| 0 <= i < it.index() ==> (#[trigger] entries[i]).host@ != host@,
        {
            if entry.host == *host {
                assert(entries[it.index()] == *entry);
                proof {
                    assert(entries.to_set().contains(*entry));
                    let num = choose|num: u32|
                        self.data@.contains_key(num) && #[trigger] self.data@[num] == *entry;
                    assert(table_view(self.data@).contains_key(num));
                }
                return Some(entry.clone());
            }
        }
        assert forall|num: u32| #[trigger] self@.contains_key(num) implies self@[num].host
            != host@ by {
            let entry = self.data@[num];
            assert(self.data@.values().contains(entry));
            assert(entries.to_set().contains(entry));
        }
        None
    }

    /// The number assigned to `host`, if the registry holds an entry for it.
    pub fn get_podnum(&self, host: String) -> (num: Option<u32>)
        ensures
            match num {
                Some(num) => self@.contains_key(num) && self@[num].host == host@,
                None => !has_host(self@, host@),
            },
    {
        match self.query(&host) {
            Some(entry) => Some(entry.num),
            None => None,
        }
    }
}

} // verus!
