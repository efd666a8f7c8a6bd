//! The stash usages and the sink connector accessors.

use introspection::sinks::{
    KafkaSinkConnector, KafkaSinkConnectorRetention, PersistSinkConnector, RelationDesc,
    SinkConnector, TailSinkConnector,
};
use introspection::usage::{Usage, UsageError};

fn kafka_connector(exactly_once: bool) -> KafkaSinkConnector {
    KafkaSinkConnector {
        addrs: "localhost:9092".to_owned(),
        topic: "t".to_owned(),
        topic_prefix: "t".to_owned(),
        key_desc_and_indices: None,
        relation_key_indices: None,
        value_desc: RelationDesc { column_names: vec!["a".to_owned()] },
        published_schema_info: None,
        consistency: None,
        exactly_once,
        transitive_source_dependencies: vec![7, 8],
        fuel: 10000,
        config_options: Vec::new(),
    }
}

#[test]
fn test_verify_all_usages() {
    Usage::verify_all_usages().unwrap();
}

#[test]
fn usage_names_do_not_overlap() {
    let usages = Usage::all_usages();
    assert_eq!(usages.len(), 2);
    let catalog = usages[0].names();
    let storage = usages[1].names();
    assert!(!catalog.is_empty());
    assert!(!storage.is_empty());
    for name in &storage {
        assert!(!catalog.contains(name));
    }
}

#[test]
fn stash_usage_is_recognised_by_any_owned_name() {
    let catalogish = vec!["unrelated".to_owned(), "database".to_owned()];
    assert_eq!(Usage::from_collection_names(&catalogish).unwrap(), Usage::Catalog);
    let storageish = vec!["storage-export-metadata".to_owned()];
    assert_eq!(Usage::from_collection_names(&storageish).unwrap(), Usage::Storage);
    let unknown = vec!["nope".to_owned()];
    assert_eq!(Usage::from_collection_names(&unknown), Err(UsageError::UnknownNames));
    let empty: Vec<String> = Vec::new();
    assert_eq!(Usage::from_collection_names(&empty), Err(UsageError::UnknownNames));
}

#[test]
fn sink_connector_names() {
    assert_eq!(SinkConnector::Kafka(kafka_connector(false)).name(), "kafka");
    assert_eq!(SinkConnector::Tail(TailSinkConnector {}).name(), "tail");
    let persist = SinkConnector::Persist(PersistSinkConnector {
        value_desc: RelationDesc { column_names: Vec::new() },
        shard_id: "s".to_owned(),
        consensus_uri: "c".to_owned(),
        blob_uri: "b".to_owned(),
    });
    assert_eq!(persist.name(), "persist");
}

#[test]
fn compaction_holdback_only_for_exactly_once_kafka() {
    assert!(SinkConnector::Kafka(kafka_connector(true)).requires_source_compaction_holdback());
    assert!(!SinkConnector::Kafka(kafka_connector(false)).requires_source_compaction_holdback());
    assert!(!SinkConnector::Tail(TailSinkConnector {}).requires_source_compaction_holdback());
}

#[test]
fn transitive_source_dependencies_only_for_kafka() {
    let kafka = SinkConnector::Kafka(kafka_connector(true));
    assert_eq!(kafka.transitive_source_dependencies(), &[7, 8]);
    let tail = SinkConnector::Tail(TailSinkConnector {});
    assert_eq!(tail.transitive_source_dependencies(), &[] as &[u64]);
}

#[test]
fn retention_default_is_unset() {
    let r = KafkaSinkConnectorRetention::default();
    assert_eq!(r.duration, None);
    assert_eq!(r.bytes, None);
}
