//! Sink-connector configuration: data-only descriptions of where
//! committed query results are written. The execution engine consumes
//! these opaquely; here they are plain values, with descriptors and
//! addresses carried as strings, identifiers as integers, and retention
//! durations in milliseconds.

use vstd::prelude::*;

verus! {

/// The schema of a relation a sink reads or writes: its column names.
#[derive(Clone, Debug, PartialEq, Eq)]
pub struct RelationDesc {
    pub column_names: Vec<String>,
}

/// The envelope in which a sink frames its updates.
#[derive(Clone, Copy, Debug, PartialEq, Eq, Structural)]
pub enum SinkEnvelope {
    Debezium,
    Upsert,
    /// An envelope for sinks that directly write differential rows;
    /// internal, never requested via SQL.
    DifferentialRow,
}

/// The frontier as of which a sink starts emitting, and whether the
/// frontier itself is excluded.
#[derive(Clone, Debug, PartialEq, Eq)]
pub struct SinkAsOf {
    pub frontier: Vec<u64>,
    pub strict: bool,
}

/// Where a Kafka sink writes its consistency topic.
#[derive(Clone, Debug, PartialEq, Eq)]
pub struct KafkaSinkConsistencyConnector {
    pub topic: String,
    pub schema_id: i32,
}

/// Schema-registry identifiers a Kafka sink has published under.
#[derive(Clone, Copy, Debug, PartialEq, Eq, Structural)]
pub struct PublishedSchemaInfo {
    pub key_schema_id: Option<i32>,
    pub value_schema_id: i32,
}

/// A fully resolved Kafka sink.
#[derive(Clone, Debug, PartialEq, Eq)]
pub struct KafkaSinkConnector {
    pub addrs: String,
    pub topic: String,
    pub topic_prefix: String,
    pub key_desc_and_indices: Option<(RelationDesc, Vec<usize>)>,
    pub relation_key_indices: Option<Vec<usize>>,
    pub value_desc: RelationDesc,
    pub published_schema_info: Option<PublishedSchemaInfo>,
    pub consistency: Option<KafkaSinkConsistencyConnector>,
    pub exactly_once: bool,
    /// Source dependencies for exactly-once sinks.
    pub transitive_source_dependencies: Vec<u64>,
    /// Maximum number of records the sink will attempt to send each time
    /// it is invoked.
    pub fuel: usize,
    pub config_options: Vec<(String, String)>,
}

/// A fully resolved persist sink.
#[derive(Clone, Debug, PartialEq, Eq)]
pub struct PersistSinkConnector {
    pub value_desc: RelationDesc,
    pub shard_id: String,
    pub consensus_uri: String,
    pub blob_uri: String,
}

/// A fully resolved tail sink.
#[derive(Clone, Debug, PartialEq, Eq)]
pub struct TailSinkConnector {}

impl Default for TailSinkConnector {
    fn default() -> (r: TailSinkConnector)
        ensures
            r == (TailSinkConnector {  }),
    {
        TailSinkConnector {  }
    }
}

/// A fully resolved sink connector.
#[derive(Clone, Debug, PartialEq, Eq)]
pub enum SinkConnector {
    Kafka(KafkaSinkConnector),
    Tail(TailSinkConnector),
    Persist(PersistSinkConnector),
}

impl SinkConnector {
    /// Returns the name of the sink connector.
    pub fn name(&self) -> (r: &'static str)
        ensures
            r@ == match *self {
                SinkConnector::Kafka(_) => "kafka"@,
                SinkConnector::Tail(_) => "tail"@,
                SinkConnector::Persist(_) => "persist"@,
            },
    {
        match self {
            SinkConnector::Kafka(_) => "kafka",
            SinkConnector::Tail(_) => "tail",
            SinkConnector::Persist(_) => "persist",
        }
    }

    /// Returns true if this sink requires sources to hold back timestamp
    /// binding compaction until all sinks that depend on a given source
    /// have finished writing out that timestamp: only an exactly-once
    /// Kafka sink does.
    pub fn requires_source_compaction_holdback(&self) -> (r: bool)
        ensures
            r == match *self {
                SinkConnector::Kafka(k) => k.exactly_once,
                SinkConnector::Tail(_) => false,
                SinkConnector::Persist(_) => false,
            },
    {
        match self {
            SinkConnector::Kafka(k) => k.exactly_once,
            SinkConnector::Tail(_) => false,
            SinkConnector::Persist(_) => false,
        }
    }

    /// Returns the identifiers of the transitive sources of this sink:
    /// only a Kafka sink records any.
    pub fn transitive_source_dependencies(&self) -> (r: &[u64])
        ensures
            r@ == match *self {
                SinkConnector::Kafka(k) => k.transitive_source_dependencies@,
                SinkConnector::Tail(_) => Seq::<u64>::empty(),
                SinkConnector::Persist(_) => Seq::<u64>::empty(),
            },
    {
        match self {
            SinkConnector::Kafka(k) => k.transitive_source_dependencies.as_slice(),
            SinkConnector::Tail(_) => &[],
            SinkConnector::Persist(_) => &[],
        }
    }
}

/// A sink for updates to a relational collection.
#[derive(Clone, Debug, PartialEq, Eq)]
pub struct SinkDesc {
    pub from: u64,
    pub from_desc: RelationDesc,
    pub connector: SinkConnector,
    pub envelope: Option<SinkEnvelope>,
    pub as_of: SinkAsOf,
}

/// The format a Kafka sink writes, with its schema-registry location.
#[derive(Clone, Debug, PartialEq, Eq)]
pub enum KafkaSinkFormat {
    Avro {
        schema_registry_url: String,
        key_schema: Option<String>,
        value_schema: String,
    },
    Json,
}

/// Retention settings of a Kafka sink's topic: a duration in
/// milliseconds, and a byte bound.
#[derive(Clone, Debug, PartialEq, Eq)]
pub struct KafkaSinkConnectorRetention {
    pub duration: Option<Option<u64>>,
    pub bytes: Option<i64>,
}

impl Default for KafkaSinkConnectorRetention {
    fn default() -> (r: KafkaSinkConnectorRetention)
        ensures
            r == (KafkaSinkConnectorRetention { duration: None, bytes: None }),
    {
        KafkaSinkConnectorRetention { duration: None, bytes: None }
    }
}

/// Everything needed to build a Kafka sink at dataflow construction time.
#[derive(Clone, Debug, PartialEq, Eq)]
pub struct KafkaSinkConnectorBuilder {
    pub broker_addrs: String,
    pub format: KafkaSinkFormat,
    /// A natural key of the sinked relation (view or source).
    pub relation_key_indices: Option<Vec<usize>>,
    /// The user-specified key for the sink.
    pub key_desc_and_indices: Option<(RelationDesc, Vec<usize>)>,
    pub value_desc: RelationDesc,
    pub topic_prefix: String,
    pub consistency_topic_prefix: Option<String>,
    pub consistency_format: Option<KafkaSinkFormat>,
    pub topic_suffix_nonce: String,
    pub partition_count: i32,
    pub replication_factor: i32,
    pub fuel: usize,
    pub config_options: Vec<(String, String)>,
    /// Forces the sink to always write to the same topic across restarts
    /// instead of picking a new topic each time.
    pub reuse_topic: bool,
    /// Source dependencies for exactly-once sinks.
    pub transitive_source_dependencies: Vec<u64>,
    pub retention: KafkaSinkConnectorRetention,
}

/// Everything needed to build a persist sink.
#[derive(Clone, Debug, PartialEq, Eq)]
pub struct PersistSinkConnectorBuilder {
    pub consensus_uri: String,
    pub blob_uri: String,
    pub shard_id: String,
    pub value_desc: RelationDesc,
}

/// A sink connector under construction.
#[derive(Clone, Debug, PartialEq, Eq)]
pub enum SinkConnectorBuilder {
    Kafka(KafkaSinkConnectorBuilder),
    Persist(PersistSinkConnectorBuilder),
}

} // verus!
