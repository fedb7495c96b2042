//! One node of the cluster: its registry, how far it has followed the
//! decided log, and the rules by which it answers clients.
//!
//! The consensus instance itself is not held here. Whoever drives the node
//! reads from it and hands over what it read: the current leader, the
//! decided index, the decided entries.

use vstd::prelude::*;
use crate::command::{KVCommand, KVCommandView};
use crate::config::{
    config_error, ClusterConfig, NodeConfig, StartupError, ELECTION_TICK_TIMEOUT,
    INITIAL_CONFIGURATION_ID,
};
use crate::database::Database;
use crate::model::{apply_command, has_host, Mapping};
use crate::snapshot::KVSnapshot;

verus! {

/// What reading one position, or one compacted range, of the replicated
/// log gives.
#[derive(Debug)]
pub enum LogEntry {
    /// A command that the cluster has decided.
    Decided(KVCommand),
    /// A command that is logged but may still be replaced.
    Undecided(KVCommand),
    /// Everything below the index was dropped from the log.
    Trimmed(u64),
    /// Everything below the index was compacted into the snapshot.
    Snapshotted(u64, KVSnapshot),
    /// The log ends here: the cluster is being reconfigured.
    StopSign,
}

/// Mathematical value of a [`LogEntry`].
pub ghost enum LogEntryView {
    Decided(KVCommandView),
    Undecided(KVCommandView),
    Trimmed(u64),
    Snapshotted(u64, Mapping),
    StopSign,
}

impl View for LogEntry {
    type V = LogEntryView;

    open spec fn view(&self) -> LogEntryView {
        match self {
            LogEntry::Decided(command) => LogEntryView::Decided(command@),
            LogEntry::Undecided(command) => LogEntryView::Undecided(command@),
            LogEntry::Trimmed(idx) => LogEntryView::Trimmed(*idx),
            LogEntry::Snapshotted(idx, snapshot) => LogEntryView::Snapshotted(
                *idx,
                snapshot.snapshotted_view(),
            ),
            LogEntry::StopSign => LogEntryView::StopSign,
        }
    }
}

/// The mathematical values of a run of log entries.
pub open spec fn entries_view(entries: Seq<LogEntry>) -> Seq<LogEntryView> {
    entries.map_values(|entry: LogEntry| entry@)
}

/// Why the node had to stop following the log. None of these is ever shown
/// to a client.
#[derive(Clone, Copy, Debug, PartialEq, Eq)]
pub enum DriverError {
    /// The entries do not start where the node stands.
    OutOfOrder,
    /// An entry that is not decided stood among the decided ones.
    Undecided,
    /// Entries that the node has not applied were dropped without a snapshot.
    Trimmed,
    /// The decided index cannot grow any further.
    IndexOverflow,
}

/// Why a client's request was not served. The client may try again.
#[derive(Clone, Copy, Debug, PartialEq, Eq)]
pub enum RequestError {
    /// This node is not the leader. The hint names the leader, if one is known.
    NotALeader(Option<u64>),
    /// What the request waits for has not been decided yet.
    NotCommitted,
}

/// What a client that waits for a commit is told when it asks.
#[derive(Clone, Copy, Debug, PartialEq, Eq)]
pub enum Confirmation {
    /// The wait is over: the request was served, or it is given up.
    Done(Result<(), RequestError>),
    /// Not yet. Ask again; this many polls are left after this one.
    Again(u64),
}

/// What a node has made of the decided log: its mapping, and the number of
/// log positions that the mapping accounts for.
pub ghost struct Replica {
    pub mapping: Mapping,
    pub decided_idx: nat,
}

/// What one log entry does to a replica, or why it stops it.
pub open spec fn entry_effect(replica: Replica, entry: LogEntryView) -> Result<
    Replica,
    DriverError,
> {
    match entry {
        LogEntryView::Decided(command) => if replica.decided_idx < u64::MAX {
            Ok(
                Replica {
                    mapping: apply_command(replica.mapping, command),
                    decided_idx: replica.decided_idx + 1,
                },
            )
        } else {
            Err(DriverError::IndexOverflow)
        },
        LogEntryView::Undecided(_) => Err(DriverError::Undecided),
        LogEntryView::Trimmed(idx) => if idx > replica.decided_idx {
            Err(DriverError::Trimmed)
        } else {
            Ok(replica)
        },
        LogEntryView::Snapshotted(idx, mapping) => if idx > replica.decided_idx {
            Ok(Replica { mapping, decided_idx: idx as nat })
        } else {
            Ok(replica)
        },
        LogEntryView::StopSign => Ok(replica),
    }
}

/// What a run of log entries does to a replica: each entry in turn, up to
/// the first that stops it. The replica is the one reached before that entry.
pub open spec fn run(replica: Replica, entries: Seq<LogEntryView>) -> (Replica, Option<DriverError>)
    decreases entries.len(),
{
    if entries.len() == 0 {
        (replica, None)
    } else {
        match entry_effect(replica, entries.first()) {
            Ok(next) => run(next, entries.drop_first()),
            Err(error) => (replica, Some(error)),
        }
    }
}

/// The state of one node.
#[derive(Debug)]
pub struct Server {
    config: NodeConfig,
    database: Database,
    last_decided_idx: u64,
}

impl Server {
    /// This node's id: the one its configuration names.
    pub open spec fn spec_pid(&self) -> u64 {
        self.spec_config().spec_pid()
    }

    /// The number of log positions that the registry accounts for.
    pub closed spec fn spec_last_decided_idx(&self) -> u64 {
        self.last_decided_idx
    }

    /// The registry.
    pub closed spec fn mapping(&self) -> Mapping {
        self.database@
    }

    /// The startup configuration.
    pub closed spec fn spec_config(&self) -> NodeConfig {
        self.config
    }

    /// The registry together with the decided index.
    pub open spec fn replica(&self) -> Replica {
        Replica { mapping: self.mapping(), decided_idx: self.spec_last_decided_idx() as nat }
    }

    /// Whether a node with this id is the leader that was reported.
    pub open spec fn leads(pid: u64, leader: Option<u64>) -> bool {
        leader == Some(pid)
    }

    /// A node that has applied nothing yet.
    pub fn new(config: NodeConfig) -> (server: Self)
        ensures
            server.spec_config() == config,
            server.spec_pid() == config.spec_pid(),
            server.spec_last_decided_idx() == 0,
            server.mapping() == Mapping::empty(),
    {
        Server { config, database: Database::new(), last_decided_idx: 0 }
    }

    /// This node's id.
    #[verifier::when_used_as_spec(spec_pid)]
    pub fn pid(&self) -> (pid: u64)
        ensures
            pid == self.spec_pid(),
    {
        self.config.pid()
    }

    /// The number of log positions that the registry accounts for.
    #[verifier::when_used_as_spec(spec_last_decided_idx)]
    pub fn last_decided_idx(&self) -> (idx: u64)
        ensures
            idx == self.spec_last_decided_idx(),
    {
        self.last_decided_idx
    }

    /// The startup configuration.
    pub fn config(&self) -> (config: &NodeConfig)
        ensures
            *config == self.spec_config(),
    {
        &self.config
    }

    /// The registry.
    pub fn database(&self) -> (database: &Database)
        ensures
            database@ == self.mapping(),
    {
        &self.database
    }

    /// Whether this node is the leader, given the leader that the consensus
    /// instance reports. While an election runs there is none, and no node is.
    pub fn is_leader(&self, leader: Option<u64>) -> (leads: bool)
        ensures
            leads == Self::leads(self.spec_pid(), leader),
    {
        match leader {
            Some(leader) => self.config.pid() == leader,
            None => false,
        }
    }

    /// Decides whether this node may propose a client's command: only the
    /// leader may. Any other node refers the client to the leader it knows of.
    pub fn check_leader(&self, leader: Option<u64>) -> (checked: Result<(), RequestError>)
        ensures
            checked == if Self::leads(self.spec_pid(), leader) {
                Ok::<(), RequestError>(())
            } else {
                Err::<(), RequestError>(RequestError::NotALeader(leader))
            },
    {
        if self.is_leader(leader) {
            Ok(())
        } else {
            Err(RequestError::NotALeader(leader))
        }
    }

    /// The number of log positions that have to be decided before a request
    /// made now is served: those that are decided, and the `undecided` ones
    /// that are logged after them. A number past the last index there is can
    /// never be reached, and the request is refused at once.
    pub fn target_idx(decided_idx: u64, undecided: usize) -> (target: Result<u64, RequestError>)
        ensures
            target == if decided_idx + undecided <= u64::MAX {
                Ok::<u64, RequestError>((decided_idx + undecided) as u64)
            } else {
                Err::<u64, RequestError>(RequestError::NotCommitted)
            },
    {
        let undecided: u64 = undecided as u64;
        if undecided <= u64::MAX - decided_idx {
            Ok(decided_idx + undecided)
        } else {
            Err(RequestError::NotCommitted)
        }
    }

    /// Tells a client that waits for the first `proposed` log positions to be
    /// decided how it stands: served, once the registry accounts for them;
    /// to ask again, with one poll fewer, while polls are left; given up,
    /// when none is.
    pub fn confirm(&self, proposed: u64, polls_left: u64) -> (outcome: Confirmation)
        ensures
            outcome == if self.spec_last_decided_idx() >= proposed {
                Confirmation::Done(Ok(()))
            } else if polls_left > 0 {
                Confirmation::Again((polls_left - 1) as u64)
            } else {
                Confirmation::Done(Err(RequestError::NotCommitted))
            },
    {
        if self.last_decided_idx >= proposed {
            Confirmation::Done(Ok(()))
        } else if polls_left > 0 {
            Confirmation::Again(polls_left - 1)
        } else {
            Confirmation::Done(Err(RequestError::NotCommitted))
        }
    }

    /// Answers a lookup. Only the leader answers, and only once its registry
    /// accounts for the `proposed` log positions that were taken when the
    /// lookup began; the answer is then the number of an entry of `host`, if
    /// the registry holds one.
    pub fn get_podnum(&self, leader: Option<u64>, proposed: u64, host: &String) -> (answer: Result<
        Option<u32>,
        RequestError,
    >)
        ensures
            !Self::leads(self.spec_pid(), leader) ==> answer == Err::<Option<u32>, RequestError>(
                RequestError::NotALeader(leader),
            ),
            Self::leads(self.spec_pid(), leader) && self.spec_last_decided_idx() < proposed
                ==> answer == Err::<Option<u32>, RequestError>(RequestError::NotCommitted),
            Self::leads(self.spec_pid(), leader) && self.spec_last_decided_idx() >= proposed
                ==> match answer {
                Ok(Some(num)) => self.mapping().contains_key(num) && self.mapping()[num].host
                    == host@,
                Ok(None) => !has_host(self.mapping(), host@),
                Err(_) => false,
            },
    {
        if !self.is_leader(leader) {
            Err(RequestError::NotALeader(leader))
        } else if self.last_decided_idx < proposed {
            Err(RequestError::NotCommitted)
        } else {
            match self.database.query(host) {
                Some(entry) => Ok(Some(entry.num)),
                None => Ok(None),
            }
        }
    }

    /// Tells the driver whether the log holds decided entries that the
    /// registry does not account for yet, and from which position to read them.
    pub fn pending_from(&self, decided_idx: u64) -> (from: Option<u64>)
        ensures
            from == if decided_idx > self.spec_last_decided_idx() {
                Some(self.spec_last_decided_idx())
            } else {
                None
            },
    {
        if decided_idx > self.last_decided_idx {
            Some(self.last_decided_idx)
        } else {
            None
        }
    }

    /// Follows the log: takes the entries read from position `from_idx` on
    /// and applies them in order. Entries that do not start where the node
    /// stands are refused as a whole. An entry that cannot be applied stops
    /// the run; what came before it stays applied.
    pub fn handle_decided_entries(&mut self, from_idx: u64, entries: &[LogEntry]) -> (handled:
        Result<(), DriverError>)
        ensures
            final(self).spec_config() == old(self).spec_config(),
            from_idx != old(self).spec_last_decided_idx() ==> final(self).replica() == old(
                self,
            ).replica() && handled == Err::<(), DriverError>(DriverError::OutOfOrder),
            from_idx == old(self).spec_last_decided_idx() ==> {
                let (replica, stopped) = run(old(self).replica(), entries_view(entries@));
                &&& final(self).replica() == replica
                &&& handled == match stopped {
                    Some(error) => Err::<(), DriverError>(error),
                    None => Ok::<(), DriverError>(()),
                }
            },
    {
        if from_idx != self.last_decided_idx {
            return Err(DriverError::OutOfOrder);
        }
        let ghost log = entries_view(entries@);
        assert(log.skip(0) =~= log);
        let mut i: usize = 0;
        while i < entries.len()
            invariant
                i <= entries.len(),
                log == entries_view(entries@),
                from_idx == old(self).spec_last_decided_idx(),
                self.spec_config() == old(self).spec_config(),
                run(old(self).replica(), log) == run(self.replica(), log.skip(i as int)),
            decreases entries.len() - i,
        {
            proof {
                assert(log.skip(i as int).first() == entries@[i as int]@);
                assert(log.skip(i as int).drop_first() =~= log.skip(i + 1));
            }
            match &entries[i] {
                LogEntry::Decided(command) => {
                    if self.last_decided_idx == u64::MAX {
                        return Err(DriverError::IndexOverflow);
                    }
                    self.database.handle_command(command.clone());
                    self.last_decided_idx = self.last_decided_idx + 1;
                },
                LogEntry::Undecided(_) => {
                    return Err(DriverError::Undecided);
                },
                LogEntry::Trimmed(idx) => {
                    if *idx > self.last_decided_idx {
                        return Err(DriverError::Trimmed);
                    }
                },
                LogEntry::Snapshotted(idx, snapshot) => {
                    if *idx > self.last_decided_idx {
                        self.database = Database::from_snapshot(snapshot);
                        self.last_decided_idx = *idx;
                    }
                },
                LogEntry::StopSign => {},
            }
            i += 1;
        }
        Ok(())
    }
}

/// Starts a node of the first membership generation: checks that `pid` and
/// `nodes` make a configuration the cluster can run on, and gives the node
/// an empty registry.
pub fn get_omni_paxos(pid: u64, nodes: Vec<u64>) -> (started: Result<Server, StartupError>)
    ensures
        match started {
            Ok(server) => {
                &&& config_error(pid, ELECTION_TICK_TIMEOUT, INITIAL_CONFIGURATION_ID, nodes@)
                    is None
                &&& server.spec_pid() == pid
                &&& server.spec_config().spec_pid() == pid
                &&& server.spec_config().spec_election_tick_timeout() == ELECTION_TICK_TIMEOUT
                &&& server.spec_config().spec_cluster().configuration_id
                    == INITIAL_CONFIGURATION_ID
                &&& server.spec_config().spec_cluster().nodes@ == nodes@
                &&& server.spec_last_decided_idx() == 0
                &&& server.mapping() == Mapping::empty()
            },
            Err(error) => config_error(
                pid,
                ELECTION_TICK_TIMEOUT,
                INITIAL_CONFIGURATION_ID,
                nodes@,
            ) == Some(error),
        },
{
    let cluster = ClusterConfig { configuration_id: INITIAL_CONFIGURATION_ID, nodes };
    match NodeConfig::new(pid, ELECTION_TICK_TIMEOUT, cluster) {
        Ok(config) => Ok(Server::new(config)),
        Err(error) => Err(error),
    }
}

} // verus!
