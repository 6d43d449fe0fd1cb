//! Sharing one NPU between containers.
//!
//! Every container runs a manager and a number of worker processes. Managers
//! take turns on the device through a global registry; workers spend tokens and
//! account for device memory through a segment that they share with their
//! manager. Both are plain shared memory, and every access to it is one atomic
//! read-modify-write of one word.
//!
//! The library holds the decisions: each operation is a small machine that
//! names its next action and is told the reply, so that whatever other
//! processes do between two accesses is covered by what is proved of it. Where
//! a segment is held alone, the same machines run to completion on
//! [`shmem::LocalContainerShmem`] and [`shmem::GlobalRegistry`].

pub mod access;
pub mod externed_api;
pub mod config;
pub mod dsmi;
pub mod hook;
pub mod liveness;
pub mod manager;
pub mod shmem;
pub mod worker;
