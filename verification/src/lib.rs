//! Replicated pod-number registry: the deterministic core of a cluster that
//! assigns integer identifiers to named hosts.
//!
//! Every node applies the same totally ordered log of [`KVCommand`]s to an
//! in-memory [`Database`]; a prefix of that log can be compacted into a
//! [`KVSnapshot`]. The consensus protocol, its storage and the network live
//! outside this crate and hand it plain values.

pub mod command;
pub mod config;
pub mod database;
pub mod laws;
pub mod model;
pub mod server;
pub mod snapshot;

pub use command::{AssignEntry, AssignEntryView, KVCommand, KVCommandView};
pub use config::{ClusterConfig, NodeConfig, StartupError};
pub use database::Database;
pub use server::{
    get_omni_paxos, Confirmation, DriverError, LogEntry, RequestError, Server,
};
pub use snapshot::KVSnapshot;
