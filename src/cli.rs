use vstd::prelude::*;

verus! {

/// The storage engine a node runs on.
#[derive(Debug, Clone, Copy, PartialEq, Eq, Structural)]
pub enum CliStorageEngine {
    InMemoryMutex,
    InMemoryChannel,
    InMemoryLockFree,
}

/// What the load-testing client does.
#[derive(Debug, Clone, Copy, PartialEq, Eq, Structural)]
pub enum CliCommand {
    /// Sends `count` records in batches of `batch_size`.
    LoadTest { count: usize, batch_size: usize },
}

} // verus!
