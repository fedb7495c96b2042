use omnipaxos::messages::Message;
use omnipaxos::storage::{Entry, Snapshot};
use omnipaxos::util::LogEntry as ReadEntry;
use omnipaxos::{ClusterConfig as ConsensusCluster, OmniPaxos, OmniPaxosConfig, ServerConfig};
use omnipaxos_storage::memory_storage::MemoryStorage;
use podnum::{
    get_omni_paxos, AssignEntry, Confirmation, KVCommand, KVSnapshot, LogEntry, RequestError,
    Server,
};
use serde::{Deserialize, Deserializer, Serialize, Serializer};

const ROUNDS: usize = 2000;

#[derive(Clone, Debug)]
struct Command(KVCommand);

#[derive(Clone, Debug)]
struct Compacted(KVSnapshot);

impl Entry for Command {
    type Snapshot = Compacted;
}

impl Snapshot<Command> for Compacted {
    fn create(entries: &[Command]) -> Self {
        let commands: Vec<KVCommand> = entries.iter().map(|entry| entry.0.clone()).collect();
        Compacted(KVSnapshot::create(&commands))
    }

    fn merge(&mut self, delta: Self) {
        self.0.merge(delta.0);
    }

    fn use_snapshots() -> bool {
        KVSnapshot::use_snapshots()
    }
}

impl Serialize for Compacted {
    fn serialize<S: Serializer>(&self, serializer: S) -> Result<S::Ok, S::Error> {
        let entries: Vec<(String, u32, u64)> = self
            .0
            .entries()
            .into_iter()
            .map(|entry| (entry.host, entry.num, entry.timestamp))
            .collect();
        (entries, self.0.deleted_keys()).serialize(serializer)
    }
}

impl<'de> Deserialize<'de> for Compacted {
    fn deserialize<D: Deserializer<'de>>(deserializer: D) -> Result<Self, D::Error> {
        let (entries, deleted): (Vec<(String, u32, u64)>, Vec<u32>) =
            Deserialize::deserialize(deserializer)?;
        let entries = entries
            .into_iter()
            .map(|(host, num, timestamp)| AssignEntry::new(host, num, timestamp))
            .collect();
        Ok(Compacted(KVSnapshot::from_parts(entries, deleted)))
    }
}

fn read_entry(entry: ReadEntry<Command>) -> LogEntry {
    match entry {
        ReadEntry::Decided(command) => LogEntry::Decided(command.0),
        ReadEntry::Undecided(command) => LogEntry::Undecided(command.0),
        ReadEntry::Trimmed(idx) => LogEntry::Trimmed(idx),
        ReadEntry::Snapshotted(compacted) => {
            LogEntry::Snapshotted(compacted.trimmed_idx, compacted.snapshot.0)
        }
        ReadEntry::StopSign(..) => LogEntry::StopSign,
    }
}

struct Node {
    consensus: OmniPaxos<Command, MemoryStorage<Command>>,
    server: Server,
}

impl Node {
    fn start(pid: u64, nodes: &[u64]) -> Node {
        let server = get_omni_paxos(pid, nodes.to_vec()).unwrap();
        let config = server.config();
        let consensus = OmniPaxosConfig {
            cluster_config: ConsensusCluster {
                configuration_id: config.cluster().configuration_id,
                nodes: config.cluster().nodes.clone(),
                ..Default::default()
            },
            server_config: ServerConfig {
                pid: config.pid(),
                election_tick_timeout: config.election_tick_timeout(),
                ..Default::default()
            },
        }
        .build(MemoryStorage::default())
        .unwrap();
        Node { consensus, server }
    }

    fn follow(&mut self) {
        if let Some(from) = self.server.pending_from(self.consensus.get_decided_idx()) {
            let entries: Vec<LogEntry> = self
                .consensus
                .read_decided_suffix(from)
                .unwrap_or_default()
                .into_iter()
                .map(read_entry)
                .collect();
            self.server.handle_decided_entries(from, &entries).unwrap();
        }
    }

    fn leads(&self) -> bool {
        self.server.is_leader(self.consensus.get_current_leader())
    }

    fn propose(&mut self, command: KVCommand) -> Result<(), RequestError> {
        self.server
            .check_leader(self.consensus.get_current_leader())?;
        self.consensus.append(Command(command)).unwrap();
        Ok(())
    }

    fn lookup(&self, host: &str) -> Option<u32> {
        self.server.database().get_podnum(host.to_string())
    }
}

struct Cluster {
    nodes: Vec<Node>,
}

impl Cluster {
    fn start(pids: &[u64]) -> Cluster {
        Cluster {
            nodes: pids.iter().map(|pid| Node::start(*pid, pids)).collect(),
        }
    }

    fn node(&mut self, pid: u64) -> &mut Node {
        self.nodes
            .iter_mut()
            .find(|node| node.server.pid() == pid)
            .unwrap()
    }

    fn kill(&mut self, pid: u64) {
        self.nodes.retain(|node| node.server.pid() != pid);
    }

    fn round(&mut self) {
        for node in self.nodes.iter_mut() {
            node.consensus.tick();
        }
        let mut in_flight: Vec<Message<Command>> = Vec::new();
        for node in self.nodes.iter_mut() {
            in_flight.extend(node.consensus.outgoing_messages());
        }
        for message in in_flight {
            let receiver = message.get_receiver();
            if let Some(node) = self
                .nodes
                .iter_mut()
                .find(|node| node.server.pid() == receiver)
            {
                node.consensus.handle_incoming(message);
            }
        }
        for node in self.nodes.iter_mut() {
            node.follow();
        }
    }

    fn run_until(&mut self, done: impl Fn(&Cluster) -> bool) -> bool {
        for _ in 0..ROUNDS {
            if done(self) {
                return true;
            }
            self.round();
        }
        done(self)
    }

    fn leader(&self) -> Option<u64> {
        let leading: Vec<u64> = self
            .nodes
            .iter()
            .filter(|node| node.leads())
            .map(|node| node.server.pid())
            .collect();
        match leading.as_slice() {
            [pid] => Some(*pid),
            _ => None,
        }
    }

    fn settled_leader(&self) -> Option<u64> {
        let leader = self.leader()?;
        if self
            .nodes
            .iter()
            .all(|node| node.consensus.get_current_leader() == Some(leader))
        {
            Some(leader)
        } else {
            None
        }
    }

    fn elect(&mut self) -> u64 {
        assert!(self.run_until(|cluster| cluster.settled_leader().is_some()));
        self.settled_leader().unwrap()
    }

    fn all_stand_at(&self, decided_idx: u64) -> bool {
        self.nodes
            .iter()
            .all(|node| node.server.last_decided_idx() == decided_idx)
    }
}

fn assign(host: &str, num: u32, timestamp: u64) -> KVCommand {
    KVCommand::Assign(AssignEntry::new(host.to_string(), num, timestamp))
}

#[test]
fn an_assignment_reaches_every_node() {
    let mut cluster = Cluster::start(&[1, 2, 3]);
    let leader = cluster.elect();
    assert_eq!(cluster.node(leader).propose(assign("a", 7, 1)), Ok(()));
    assert!(cluster.run_until(|cluster| cluster.all_stand_at(1)));
    for node in &cluster.nodes {
        assert_eq!(node.lookup("a"), Some(7));
    }
    let current = cluster.node(leader).consensus.get_current_leader();
    assert_eq!(
        cluster.node(leader).server.get_podnum(current, 1, &"a".to_string()),
        Ok(Some(7))
    );
    assert_eq!(
        cluster.node(leader).server.confirm(1, 0),
        Confirmation::Done(Ok(()))
    );
}

#[test]
fn an_unassigned_host_is_gone_from_every_node() {
    let mut cluster = Cluster::start(&[1, 2, 3]);
    let leader = cluster.elect();
    assert_eq!(cluster.node(leader).propose(assign("a", 7, 1)), Ok(()));
    assert_eq!(cluster.node(leader).propose(KVCommand::UnAssign(7)), Ok(()));
    assert!(cluster.run_until(|cluster| cluster.all_stand_at(2)));
    for node in &cluster.nodes {
        assert_eq!(node.lookup("a"), None);
    }
}

#[test]
fn a_new_leader_takes_over_and_the_lost_proposal_is_never_applied() {
    let mut cluster = Cluster::start(&[1, 2, 3]);
    let old_leader = cluster.elect();
    assert_eq!(cluster.node(old_leader).propose(assign("a", 7, 1)), Ok(()));
    assert!(cluster.run_until(|cluster| cluster.all_stand_at(1)));
    assert_eq!(
        cluster.node(old_leader).propose(assign("lost", 8, 2)),
        Ok(())
    );
    cluster.kill(old_leader);
    assert_eq!(cluster.nodes.len(), 2);
    let new_leader = cluster.elect();
    assert_ne!(new_leader, old_leader);
    for node in &cluster.nodes {
        assert_eq!(node.lookup("a"), Some(7));
        assert_eq!(node.lookup("lost"), None);
        assert_eq!(node.server.last_decided_idx(), 1);
    }
    assert_eq!(cluster.node(new_leader).propose(assign("b", 9, 3)), Ok(()));
    assert!(cluster.run_until(|cluster| cluster.all_stand_at(2)));
    for node in &cluster.nodes {
        assert_eq!(node.lookup("a"), Some(7));
        assert_eq!(node.lookup("b"), Some(9));
        assert_eq!(node.lookup("lost"), None);
    }
}

#[test]
fn a_follower_names_the_leader() {
    let mut cluster = Cluster::start(&[1, 2, 3]);
    let leader = cluster.elect();
    let mut followers = 0;
    for pid in [1, 2, 3] {
        if pid == leader {
            continue;
        }
        followers += 1;
        let follower = cluster.node(pid);
        assert_eq!(
            follower.propose(assign("a", 7, 1)),
            Err(RequestError::NotALeader(Some(leader)))
        );
        let current = follower.consensus.get_current_leader();
        assert_eq!(
            follower.server.get_podnum(current, 0, &"a".to_string()),
            Err(RequestError::NotALeader(Some(leader)))
        );
    }
    assert_eq!(followers, 2);
    assert!(!cluster.run_until(|cluster| !cluster.all_stand_at(0)));
}

#[test]
fn exactly_one_node_leads_once_the_election_has_settled() {
    let mut cluster = Cluster::start(&[1, 2, 3]);
    let leader = cluster.elect();
    let leading = cluster.nodes.iter().filter(|node| node.leads()).count();
    assert_eq!(leading, 1);
    assert!(cluster.node(leader).leads());
}

#[test]
fn every_node_applies_the_same_commands_in_the_same_order() {
    let mut cluster = Cluster::start(&[1, 2, 3]);
    let leader = cluster.elect();
    let commands = vec![
        assign("a", 1, 1),
        assign("b", 2, 2),
        assign("c", 1, 3),
        KVCommand::UnAssign(2),
        assign("d", 4, 4),
        KVCommand::UnAssign(9),
    ];
    for command in &commands {
        assert_eq!(cluster.node(leader).propose(command.clone()), Ok(()));
        cluster.round();
    }
    assert!(cluster.run_until(|cluster| cluster.all_stand_at(6)));
    for node in &cluster.nodes {
        assert_eq!(node.lookup("a"), None);
        assert_eq!(node.lookup("b"), None);
        assert_eq!(node.lookup("c"), Some(1));
        assert_eq!(node.lookup("d"), Some(4));
    }
}

#[test]
fn a_node_that_reads_a_compacted_log_catches_up_from_the_snapshot() {
    let mut cluster = Cluster::start(&[1, 2, 3]);
    let leader = cluster.elect();
    let commands = vec![
        assign("a", 1, 1),
        assign("b", 2, 2),
        KVCommand::UnAssign(1),
        assign("c", 3, 3),
        assign("d", 1, 4),
    ];
    for command in &commands {
        assert_eq!(cluster.node(leader).propose(command.clone()), Ok(()));
    }
    assert!(cluster.run_until(|cluster| cluster.all_stand_at(5)));
    let node = cluster.node(leader);
    node.consensus.snapshot(Some(3), true).unwrap();
    let read: Vec<LogEntry> = node
        .consensus
        .read_decided_suffix(0)
        .unwrap()
        .into_iter()
        .map(read_entry)
        .collect();
    assert_eq!(read.len(), 3);
    assert!(matches!(read[0], LogEntry::Snapshotted(3, _)));
    let mut late = get_omni_paxos(leader, vec![1, 2, 3]).unwrap();
    assert_eq!(late.handle_decided_entries(0, &read), Ok(()));
    assert_eq!(late.last_decided_idx(), 5);
    for host in ["a", "b", "c", "d"] {
        assert_eq!(
            late.database().query(&host.to_string()),
            node.server.database().query(&host.to_string())
        );
    }
    assert_eq!(late.database().get_podnum("b".to_string()), Some(2));
    assert_eq!(late.database().get_podnum("c".to_string()), Some(3));
    assert_eq!(late.database().get_podnum("d".to_string()), Some(1));
    assert_eq!(late.database().get_podnum("a".to_string()), None);
}

#[test]
fn a_second_snapshot_is_merged_into_the_first() {
    let mut cluster = Cluster::start(&[1, 2, 3]);
    let leader = cluster.elect();
    let commands = vec![
        assign("a", 1, 1),
        assign("b", 2, 2),
        KVCommand::UnAssign(1),
        assign("c", 2, 3),
        assign("d", 5, 4),
    ];
    for command in &commands {
        assert_eq!(cluster.node(leader).propose(command.clone()), Ok(()));
    }
    assert!(cluster.run_until(|cluster| cluster.all_stand_at(5)));
    let node = cluster.node(leader);
    node.consensus.snapshot(Some(2), true).unwrap();
    node.consensus.snapshot(Some(4), true).unwrap();
    let read: Vec<LogEntry> = node
        .consensus
        .read_decided_suffix(0)
        .unwrap()
        .into_iter()
        .map(read_entry)
        .collect();
    assert_eq!(read.len(), 2);
    match &read[0] {
        LogEntry::Snapshotted(idx, snapshot) => {
            assert_eq!(*idx, 4);
            assert_eq!(
                snapshot.entries(),
                vec![AssignEntry::new("c".to_string(), 2, 3)]
            );
            assert_eq!(snapshot.deleted_keys(), Vec::<u32>::new());
        }
        _ => panic!("the compacted prefix is read as a snapshot"),
    }
    let mut late = get_omni_paxos(leader, vec![1, 2, 3]).unwrap();
    assert_eq!(late.handle_decided_entries(0, &read), Ok(()));
    assert_eq!(late.last_decided_idx(), 5);
    assert_eq!(late.database().get_podnum("a".to_string()), None);
    assert_eq!(late.database().get_podnum("b".to_string()), None);
    assert_eq!(late.database().get_podnum("c".to_string()), Some(2));
    assert_eq!(late.database().get_podnum("d".to_string()), Some(5));
}
