//! The replication core of a Raft-style consensus engine: the command log and
//! its pointers, follower progress tracking and the commit rule, the
//! read-index query queue, the registry that makes writes idempotent, the
//! election rules, the rules of the background drivers, and the in-memory
//! storage backend.
//!
//! Everything here is synchronous and does no I/O: a caller owns the locks,
//! the timers and the transport, hands events in and carries actions out.

pub mod clock;
pub mod codec;
pub mod entry;
pub mod node_id;
pub mod payload;
pub mod process;
pub mod storage;
pub mod vote;
