//! Where a node keeps its log entries, its vote and its snapshot tags.

pub mod memory;
