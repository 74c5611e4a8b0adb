//! Signaling relay and per-listener pipeline orchestration for a multi-listener audio stream.
//!
//! The library holds the decisions: the wire codec for signaling envelopes, the build plan of a
//! per-session audio graph, the pipeline handle's mixer and negotiation rules, the session
//! registry, the hub that routes envelopes between listeners and the upstream streamer, the
//! command surface, and the statements that query the catalog of recorded jams. Media engine
//! work, database access and network I/O are carried out by the caller from the values these
//! functions return.

pub mod catalog;
pub mod dispatcher;
pub mod envelope;
pub mod graph;
pub mod hub;
pub mod json;
pub mod keyed;
pub mod pipeline;
pub mod session;
