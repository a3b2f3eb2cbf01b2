//! The parts of a running node.

pub mod apply_laws;
pub mod command;
pub mod command_log;
pub mod command_log_laws;
pub mod command_log_model;
pub mod completion;
pub mod log_stream;
pub mod peer_svc;
pub mod query_queue;
pub mod raft_process;
pub mod replication_laws;
pub mod request_registry;
pub mod thread;
pub mod voter;
