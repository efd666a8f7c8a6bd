//! The event union delivered to the pipeline, and the typed rows the
//! demultiplexer routes into its eight output channels.
//!
//! Identifiers are carried as plain integers: a dataflow or relation
//! identifier is a `u64`, a worker is a `u64`, a peek's connection is a
//! `u32`. Every event additionally carries an implicit raw timestamp and
//! worker, supplied by the ingestion side.

use vstd::prelude::*;

verus! {

/// A source instantiated inside one dataflow.
#[derive(Clone, Copy, Debug, PartialEq, Eq, Structural)]
pub struct SourceInstanceId {
    pub source_id: u64,
    pub dataflow_id: u64,
}

/// A logged peek: the relation it targets, the logical time it asks for,
/// and the connection that issued it.
#[derive(Clone, Copy, Debug, PartialEq, Eq, Structural)]
pub struct Peek {
    pub id: u64,
    pub time: u64,
    pub conn_id: u32,
}

impl Peek {
    /// Create a new peek from its arguments.
    pub fn new(id: u64, time: u64, conn_id: u32) -> (p: Peek)
        ensures
            p == (Peek { id, time, conn_id }),
    {
        Peek { id, time, conn_id }
    }
}

/// Round-trip statistics for one Kafka broker, by consumer.
#[derive(Clone, Copy, Debug, PartialEq, Eq, Structural)]
pub struct RttSample {
    pub min: i64,
    pub max: i64,
    pub avg: i64,
    pub sum: i64,
    pub cnt: i64,
    pub stddev: i64,
    pub p50: i64,
    pub p75: i64,
    pub p90: i64,
    pub p95: i64,
    pub p99: i64,
    pub p99_99: i64,
}

/// Throughput and offset statistics for one Kafka consumer/partition pair.
#[derive(Clone, Copy, Debug, PartialEq, Eq, Structural)]
pub struct PartitionSample {
    pub rxmsgs: i64,
    pub rxbytes: i64,
    pub txmsgs: i64,
    pub txbytes: i64,
    pub lo_offset: i64,
    pub hi_offset: i64,
    pub ls_offset: i64,
    pub app_offset: i64,
    pub consumer_lag: i64,
    pub initial_high_offset: i64,
}

/// Offset and timestamp deltas observed for one source partition.
#[derive(Clone, Copy, Debug, PartialEq, Eq, Structural)]
pub struct SourceSample {
    pub offset: i64,
    pub timestamp: i64,
}

/// A logged event.
pub enum MaterializedEvent {
    /// Dataflow command, true for create and false for drop.
    Dataflow(u64, bool),
    /// Dataflow depends on a named source of data.
    DataflowDependency { dataflow: u64, source: u64 },
    /// RTT statistics for a Kafka broker, by consumer.
    KafkaBrokerRtt {
        consumer_name: String,
        source_id: SourceInstanceId,
        broker_name: String,
        rtt: RttSample,
    },
    /// Statistics for a particular Kafka consumer / partition pair.
    KafkaConsumerPartition {
        consumer_name: String,
        source_id: SourceInstanceId,
        partition_id: String,
        stats: PartitionSample,
    },
    /// Peek command, true for install and false for retire.
    Peek(Peek, bool),
    /// Offset and timestamp deltas for one source partition.
    SourceInfo {
        source_name: String,
        source_id: SourceInstanceId,
        partition_id: Option<String>,
        deltas: SourceSample,
    },
    /// Available frontier information for views.
    Frontier(u64, u64, i64),
}

/// A non-fatal correlation violation: the pipeline warns and continues.
#[derive(Clone, Copy, Debug, PartialEq, Eq, Structural)]
pub enum Warning {
    /// A drop arrived for a dataflow with no active entry.
    DropWithoutCreate { dataflow: u64, worker: u64 },
    /// A dependency arrived for a dataflow with no active entry.
    DependencyWithoutDataflow { dataflow: u64, source: u64, worker: u64 },
    /// A peek install arrived while one was already outstanding.
    DuplicatePeekInstall { worker: u64, conn_id: u32 },
    /// A peek retire arrived with no outstanding install.
    RetireWithoutInstall { worker: u64, conn_id: u32 },
}

/// One insert (`diff == 1`) or retract (`diff == -1`) of a dataflow's
/// presence.
#[derive(Clone, Copy, Debug, PartialEq, Eq, Structural)]
pub struct DataflowUpdate {
    pub dataflow: u64,
    pub worker: u64,
    pub time: u64,
    pub diff: i64,
}

/// One insert or retract of a dependency edge.
#[derive(Clone, Copy, Debug, PartialEq, Eq, Structural)]
pub struct DependencyUpdate {
    pub dataflow: u64,
    pub source: u64,
    pub worker: u64,
    pub time: u64,
    pub diff: i64,
}

/// One signed change of a relation's frontier value.
#[derive(Clone, Copy, Debug, PartialEq, Eq, Structural)]
pub struct FrontierUpdate {
    pub relation: u64,
    pub worker: u64,
    pub logical_time: u64,
    pub time: u64,
    pub delta: i64,
}

/// One raw Kafka broker RTT sample, keyed by consumer, source and broker.
pub struct RttUpdate {
    pub consumer_name: String,
    pub source_id: SourceInstanceId,
    pub broker_name: String,
    pub time: u64,
    pub rtt: RttSample,
}

/// One raw Kafka consumer/partition sample.
pub struct PartitionUpdate {
    pub consumer_name: String,
    pub source_id: SourceInstanceId,
    pub partition_id: String,
    pub time: u64,
    pub stats: PartitionSample,
}

/// One insert or retract of a peek's presence.
#[derive(Clone, Copy, Debug, PartialEq, Eq, Structural)]
pub struct PeekUpdate {
    pub peek: Peek,
    pub worker: u64,
    pub time: u64,
    pub diff: i64,
}

/// One completed peek's duration, rounded up to a power-of-two bucket.
#[derive(Clone, Copy, Debug, PartialEq, Eq, Structural)]
pub struct PeekDurationUpdate {
    pub worker: u64,
    pub bucket: u64,
    pub time: u64,
}

/// One raw source offset/timestamp sample.
pub struct SourceInfoUpdate {
    pub source_name: String,
    pub source_id: SourceInstanceId,
    pub partition_id: Option<String>,
    pub time: u64,
    pub deltas: SourceSample,
}

} // verus!
