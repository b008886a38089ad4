//! Control-plane core for a daemon that supervises a fixed set of
//! long-running resources and keeps connected observers in step with them.
//!
//! The registry holds the one record of every resource. Observers send
//! commands over persistent connections; the command processor runs them
//! against the registry and answers the sender. The poller records what the
//! resources are seen to do and turns each change into an event. The hub fans
//! each event out to every connected observer and drops those that are gone.
//!
//! Nothing here waits, sleeps, locks or spawns: the caller owns the sockets,
//! the timers and the locks, hands this library what arrived, and carries out
//! what it asks for.

pub mod cbor;
pub mod channel;
pub mod connection;
pub mod hub;
pub mod poller;
pub mod processor;
pub mod protocol;
pub mod registry;
pub mod resource;
pub mod state;
pub mod status;
pub mod wire;
