//! Core of a multiplexed RPC channel: a compact binary envelope format for
//! calls and results, a server-side dispatch registry keyed by procedure tag,
//! a per-connection server state machine, and a client-side transaction
//! manager that correlates each result with the call that produced it, so
//! that many calls can be in flight over one duplex connection at once.

pub mod client;
pub mod errors;
pub mod registry;
pub mod server;
pub mod wire;
