//! Nimbus: the decision core of a passthrough userspace filesystem whose
//! top-level directories ("projects") are guarded by cooperative locks shared
//! between a small set of machines.
//!
//! The crate holds the parts that can be reasoned about: inode and handle
//! bookkeeping, project activity counting, the lock index with the rules that
//! peers and the local machine follow, and the conversions between host and
//! kernel vocabulary. Callers perform the system calls and hand the library
//! plain values.

pub mod config;
pub mod convert;
pub mod file_handler;
pub mod files;
pub mod follower;
pub mod fuse;
pub mod index;
pub mod maps;
pub mod path;
pub mod server;
