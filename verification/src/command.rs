//! The commands that travel through the replicated log.

use vstd::prelude::*;

verus! {

/// One assignment: the host, the number it was given, and the logical time
/// at which that happened.
#[derive(Debug, PartialEq, Eq)]
pub struct AssignEntry {
    pub host: String,
    pub num: u32,
    pub timestamp: u64,
}

/// Mathematical value of an [`AssignEntry`].
pub ghost struct AssignEntryView {
    pub host: Seq<char>,
    pub num: u32,
    pub timestamp: u64,
}

impl View for AssignEntry {
    type V = AssignEntryView;

    open spec fn view(&self) -> AssignEntryView {
        AssignEntryView { host: self.host@, num: self.num, timestamp: self.timestamp }
    }
}

impl Clone for AssignEntry {
    fn clone(&self) -> (copy: Self)
        ensures
            copy == *self,
    {
        AssignEntry { host: self.host.clone(), num: self.num, timestamp: self.timestamp }
    }
}

impl AssignEntry {
    /// Builds an entry from its three parts.
    pub fn new(host: String, num: u32, timestamp: u64) -> (entry: Self)
        ensures
            entry.host == host,
            entry.num == num,
            entry.timestamp == timestamp,
    {
        AssignEntry { host, num, timestamp }
    }
}

/// The unit of replication: one change to the host-to-number mapping.
#[derive(Debug, PartialEq, Eq)]
pub enum KVCommand {
    /// Insert the entry under its `num`, replacing whatever was there.
    Assign(AssignEntry),
    /// Remove the entry stored under this number, if there is one.
    UnAssign(u32),
}

/// Mathematical value of a [`KVCommand`].
pub ghost enum KVCommandView {
    Assign(AssignEntryView),
    UnAssign(u32),
}

impl View for KVCommand {
    type V = KVCommandView;

    open spec fn view(&self) -> KVCommandView {
        match self {
            KVCommand::Assign(entry) => KVCommandView::Assign(entry@),
            KVCommand::UnAssign(num) => KVCommandView::UnAssign(*num),
        }
    }
}

impl Clone for KVCommand {
    fn clone(&self) -> (copy: Self)
        ensures
            copy == *self,
    {
        match self {
            KVCommand::Assign(entry) => KVCommand::Assign(entry.clone()),
            KVCommand::UnAssign(num) => KVCommand::UnAssign(*num),
        }
    }
}

} // verus!
