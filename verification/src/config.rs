//! The startup configuration of one node, and the rules it has to meet
//! before a consensus instance can be built from it.

use vstd::prelude::*;

verus! {

/// Number of ticks without a heartbeat after which a node starts an election.
pub const ELECTION_TICK_TIMEOUT: u64 = 5;

/// Identifier of the first membership generation of a cluster.
pub const INITIAL_CONFIGURATION_ID: u32 = 1;

/// One membership generation of the cluster: its identifier and the ids of
/// the nodes that belong to it.
#[derive(Debug)]
pub struct ClusterConfig {
    pub configuration_id: u32,
    pub nodes: Vec<u64>,
}

impl Clone for ClusterConfig {
    fn clone(&self) -> (copy: Self)
        ensures
            copy.configuration_id == self.configuration_id,
            copy.nodes@ == self.nodes@,
    {
        ClusterConfig { configuration_id: self.configuration_id, nodes: self.nodes.clone() }
    }
}

/// Why a startup configuration was turned down.
#[derive(Clone, Copy, Debug, PartialEq, Eq)]
pub enum StartupError {
    /// The cluster has fewer than two nodes.
    TooFewNodes,
    /// The configuration id is 0.
    ZeroConfigurationId,
    /// This node's id is 0.
    ZeroPid,
    /// The election timeout is 0 ticks.
    ZeroElectionTimeout,
    /// This node's id is not among the cluster's nodes.
    NotAMember,
    /// A node id occurs twice among the cluster's nodes.
    DuplicateNode,
}

/// The rules of the consensus library: at least two nodes, no zero among
/// the configuration id, the node's id and the election timeout, and the
/// node itself a member.
pub open spec fn consensus_accepts(
    pid: u64,
    election_tick_timeout: u64,
    configuration_id: u32,
    nodes: Seq<u64>,
) -> bool {
    &&& nodes.len() > 1
    &&& configuration_id != 0
    &&& pid != 0
    &&& election_tick_timeout != 0
    &&& nodes.contains(pid)
}

/// The first rule that a configuration breaks, if it breaks one.
pub open spec fn config_error(
    pid: u64,
    election_tick_timeout: u64,
    configuration_id: u32,
    nodes: Seq<u64>,
) -> Option<StartupError> {
    if nodes.len() <= 1 {
        Some(StartupError::TooFewNodes)
    } else if configuration_id == 0 {
        Some(StartupError::ZeroConfigurationId)
    } else if pid == 0 {
        Some(StartupError::ZeroPid)
    } else if election_tick_timeout == 0 {
        Some(StartupError::ZeroElectionTimeout)
    } else if !nodes.contains(pid) {
        Some(StartupError::NotAMember)
    } else if !nodes.no_duplicates() {
        Some(StartupError::DuplicateNode)
    } else {
        None
    }
}

/// `omnipaxos::errors::ConfigError`, what a configuration check of the
/// consensus library fails with. It is passed on unread.
#[verifier::external_type_specification]
#[verifier::external_body]
pub struct ExConfigError(omnipaxos::errors::ConfigError);

/// `omnipaxos::OmniPaxosConfig::validate`, on a configuration that sets
/// the four given fields and leaves every other at its default. The
/// contract repeats the checks of that function and of the two it calls,
/// `ClusterConfig::validate` and `ServerConfig::validate`: with the default
/// buffer size, batch size and resend timeout, and no flexible quorum, the
/// configuration passes exactly when `consensus_accepts` holds.
#[verifier::external_body]
fn consensus_validate(
    pid: u64,
    election_tick_timeout: u64,
    configuration_id: u32,
    nodes: &Vec<u64>,
) -> (checked: Result<(), omnipaxos::errors::ConfigError>)
    ensures
        checked is Ok <==> consensus_accepts(
            pid,
            election_tick_timeout,
            configuration_id,
            nodes@,
        ),
{
    let server_config =
        omnipaxos::ServerConfig { pid, election_tick_timeout, ..Default::default() };
    let cluster_config =
        omnipaxos::ClusterConfig { configuration_id, nodes: nodes.clone(), ..Default::default() };
    omnipaxos::OmniPaxosConfig { cluster_config, server_config }.validate()
}

/// Whether some value occurs twice in `nodes`.
pub fn has_duplicates(nodes: &Vec<u64>) -> (found: bool)
    ensures
        found == !nodes@.no_duplicates(),
{
    let mut i: usize = 0;
    while i < nodes.len()
        invariant
            i <= nodes.len(),
            forall|a: int, b: int| 0 <= a < i && a < b < nodes.len() ==> nodes@[a] != nodes@[b],
        decreases nodes.len() - i,
    {
        let mut j: usize = i + 1;
        while j < nodes.len()
            invariant
                i < j <= nodes.len(),
                forall|b: int| i < b < j ==> nodes@[i as int] != nodes@[b],
            decreases nodes.len() - j,
        {
            if nodes[i] == nodes[j] {
                return true;
            }
            j += 1;
        }
        i += 1;
    }
    assert forall|a: int, b: int| 0 <= a < nodes@.len() && 0 <= b < nodes@.len() && a != b implies nodes@[a]
        != nodes@[b] by {
        if a < b {
            assert(nodes@[a] != nodes@[b]);
        } else {
            assert(nodes@[b] != nodes@[a]);
        }
    }
    false
}

/// The immutable startup configuration of one node: who it is, which
/// cluster it belongs to, and how long it waits before it calls an election.
#[derive(Debug)]
pub struct NodeConfig {
    pid: u64,
    election_tick_timeout: u64,
    cluster: ClusterConfig,
}

impl NodeConfig {
    #[verifier::type_invariant]
    spec fn accepted(self) -> bool {
        config_error(
            self.pid,
            self.election_tick_timeout,
            self.cluster.configuration_id,
            self.cluster.nodes@,
        ) is None
    }

    /// This node's id.
    pub closed spec fn spec_pid(&self) -> u64 {
        self.pid
    }

    /// The election timeout, in ticks.
    pub closed spec fn spec_election_tick_timeout(&self) -> u64 {
        self.election_tick_timeout
    }

    /// The cluster the node belongs to.
    pub closed spec fn spec_cluster(&self) -> ClusterConfig {
        self.cluster
    }

    /// Checks a configuration and keeps it if every rule holds. The rules
    /// of the consensus library are put to that library itself; that no node
    /// id occurs twice is checked here.
    pub fn new(pid: u64, election_tick_timeout: u64, cluster: ClusterConfig) -> (made: Result<
        Self,
        StartupError,
    >)
        ensures
            match made {
                Ok(config) => {
                    &&& config_error(
                        pid,
                        election_tick_timeout,
                        cluster.configuration_id,
                        cluster.nodes@,
                    ) is None
                    &&& config.spec_pid() == pid
                    &&& config.spec_election_tick_timeout() == election_tick_timeout
                    &&& config.spec_cluster() == cluster
                },
                Err(error) => config_error(
                    pid,
                    election_tick_timeout,
                    cluster.configuration_id,
                    cluster.nodes@,
                ) == Some(error),
            },
    {
        match consensus_validate(pid, election_tick_timeout, cluster.configuration_id, &cluster.nodes) {
            Ok(()) => {
                if has_duplicates(&cluster.nodes) {
                    Err(StartupError::DuplicateNode)
                } else {
                    Ok(NodeConfig { pid, election_tick_timeout, cluster })
                }
            },
            Err(_) => {
                if cluster.nodes.len() <= 1 {
                    Err(StartupError::TooFewNodes)
                } else if cluster.configuration_id == 0 {
                    Err(StartupError::ZeroConfigurationId)
                } else if pid == 0 {
                    Err(StartupError::ZeroPid)
                } else if election_tick_timeout == 0 {
                    Err(StartupError::ZeroElectionTimeout)
                } else {
                    Err(StartupError::NotAMember)
                }
            },
        }
    }

    /// This node's id.
    #[verifier::when_used_as_spec(spec_pid)]
    pub fn pid(&self) -> (pid: u64)
        ensures
            pid == self.spec_pid(),
            pid != 0,
    {
        proof {
            use_type_invariant(self);
        }
        self.pid
    }

    /// The election timeout, in ticks.
    #[verifier::when_used_as_spec(spec_election_tick_timeout)]
    pub fn election_tick_timeout(&self) -> (ticks: u64)
        ensures
            ticks == self.spec_election_tick_timeout(),
            ticks != 0,
    {
        proof {
            use_type_invariant(self);
        }
        self.election_tick_timeout
    }

    /// The cluster the node belongs to: at least two distinct nodes, this
    /// one among them.
    pub fn cluster(&self) -> (cluster: &ClusterConfig)
        ensures
            *cluster == self.spec_cluster(),
            cluster.configuration_id != 0,
            cluster.nodes@.len() > 1,
            cluster.nodes@.no_duplicates(),
            cluster.nodes@.contains(self.spec_pid()),
    {
        proof {
            use_type_invariant(self);
        }
        &self.cluster
    }
}

} // verus!
