//! Worker-local introspection pipeline for a streaming SQL engine.
//!
//! A raw, per-worker stream of lifecycle and metrics events (dataflow
//! creation and teardown, query peeks, connector throughput counters) is
//! demultiplexed into eight incrementally maintained, indexed relations.
//! The demultiplexer keeps cross-event correlation state (which dataflows
//! are alive, which peeks are in flight), converts point-in-time events
//! into insert/retract pairs or aggregate samples, and tolerates malformed
//! event sequences by warning and continuing rather than aborting.

pub mod aggregate;

pub mod vmap;

pub mod bucket;

pub mod pow2;

pub mod demux;

pub mod event;

pub mod laws;

pub mod materialize;

pub mod pipeline;

pub mod sinks;

pub mod usage;

pub mod state;
