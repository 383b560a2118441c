//! Keeps a hosts file in step with the running containers of a host.
//!
//! The library holds the logic: deriving hostnames and host entries from
//! container details, rendering the generated block, merging it into a file
//! that also holds user content, and the decisions of the sync loop.
pub mod container;
pub mod merge;
pub mod sync;
