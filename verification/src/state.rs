//! The daemon's shared state, and the configuration it is made from.

use vstd::prelude::*;
use tokio::sync::mpsc::UnboundedSender;
use crate::registry::{Registry, initial_records, texts, well_formed};

verus! {

/// The configuration format that this daemon reads.
pub const CONFIG_VERSION: u64 = 1;

/// What the configuration declares: the version of its format and the
/// resources' definitions, in the order that gives them their ids.
#[derive(Clone, Debug, PartialEq, Eq)]
pub struct Config {
    pub version: u64,
    pub servers: Vec<String>,
}

/// How a configuration's format version stands to the one this daemon reads.
#[derive(Clone, Copy, Debug, PartialEq, Eq, Structural)]
pub enum VersionCheck {
    /// The versions agree.
    Current,
    /// The configuration is older. The daemon starts and warns.
    Outdated,
    /// The configuration is newer. The daemon must not start.
    Unsupported,
}

/// Compares a configuration's format version with [`CONFIG_VERSION`].
pub fn check_version(version: u64) -> (check: VersionCheck)
    ensures
        version == CONFIG_VERSION <==> check == VersionCheck::Current,
        version < CONFIG_VERSION <==> check == VersionCheck::Outdated,
        version > CONFIG_VERSION <==> check == VersionCheck::Unsupported,
{
    if version > CONFIG_VERSION {
        VersionCheck::Unsupported
    } else if version < CONFIG_VERSION {
        VersionCheck::Outdated
    } else {
        VersionCheck::Current
    }
}

/// The state that the daemon's tasks share: the registry, and the sending
/// half of the queue on which events wait for the hub.
pub struct State {
    pub registry: Registry,
    pub tx: UnboundedSender<Vec<u8>>,
}

impl State {
    /// Makes the state for a configuration: one resource per definition, in
    /// the configuration's order, with ids counting from 0, each `Stopped`.
    /// The version is not looked at here; see [`check_version`].
    pub fn new(config: Config, tx: UnboundedSender<Vec<u8>>) -> (state: State)
        ensures
            state.registry@ == initial_records(texts(config.servers@)),
            well_formed(state.registry@),
            state.tx == tx,
    {
        State { registry: Registry::new(&config.servers), tx }
    }
}

} // verus!
