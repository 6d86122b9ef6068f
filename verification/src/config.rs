//! The configuration of a machine and of the peers it talks to.

use vstd::prelude::*;
use std::collections::HashMap;

verus! {

/// What a machine is for.
#[derive(Clone, Copy, Debug, Hash, PartialEq, Eq, Structural)]
pub enum MachineMode {
    DevelopmentMode,
    BackupMode,
}

/// This machine: its name among the peers, its mode, and the address at
/// which its lock service listens.
#[derive(Debug, Hash, PartialEq, Eq)]
pub struct MachineConfig {
    pub name: String,
    pub mode: MachineMode,
    pub endpoint: String,
}

/// A peer: the command that reaches it, and the address of its lock
/// service.
#[derive(Debug, Hash, PartialEq, Eq)]
pub struct NetworkMachineConfig {
    pub command: String,
    pub endpoint: String,
}

/// The whole configuration: this machine, and each peer under its name.
#[derive(Debug)]
pub struct Config {
    pub machine: MachineConfig,
    pub network: HashMap<String, NetworkMachineConfig>,
}

} // verus!
