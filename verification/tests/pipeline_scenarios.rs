//! End-to-end scenarios through the assembled pipeline.

use introspection::event::{
    MaterializedEvent, Peek, PartitionSample, RttSample, SourceInstanceId, SourceSample, Warning,
};
use introspection::materialize::{Datum, MaterializedLog};
use introspection::pipeline::{LoggingConfig, Pipeline};

fn all_variants() -> Vec<MaterializedLog> {
    vec![
        MaterializedLog::DataflowCurrent,
        MaterializedLog::DataflowDependency,
        MaterializedLog::FrontierCurrent,
        MaterializedLog::KafkaBrokerRtt,
        MaterializedLog::KafkaConsumerInfo,
        MaterializedLog::PeekCurrent,
        MaterializedLog::PeekDuration,
        MaterializedLog::SourceInfo,
    ]
}

fn rtt_sample(base: i64) -> RttSample {
    RttSample {
        min: base,
        max: base + 1,
        avg: base + 2,
        sum: base + 3,
        cnt: base + 4,
        stddev: base + 5,
        p50: base + 6,
        p75: base + 7,
        p90: base + 8,
        p95: base + 9,
        p99: base + 10,
        p99_99: base + 11,
    }
}

#[test]
fn dataflow_lifecycle_nets_to_zero() {
    // Create at t=5, add a dependency at t=7, drop at t=20, with
    // granularity 10: output times 10, 10, 30, and both relations net to
    // zero.
    let config = LoggingConfig { granularity: 10, active: all_variants() };
    let mut p = Pipeline::construct(&config);
    let batch = vec![
        (5u64, 0u64, MaterializedEvent::Dataflow(1, true)),
        (7u64, 0u64, MaterializedEvent::DataflowDependency { dataflow: 1, source: 2 }),
        (20u64, 0u64, MaterializedEvent::Dataflow(1, false)),
    ];
    let warnings = p.process_batch(batch);
    assert!(warnings.is_empty());

    let presence = p.handle(MaterializedLog::DataflowCurrent).unwrap().updates();
    assert_eq!(presence.len(), 2);
    assert_eq!(presence[0].1, vec![Datum::Uint64(1), Datum::Int64(0)]);
    assert_eq!((presence[0].2, presence[0].3), (10, 1));
    assert_eq!(presence[1].1, presence[0].1);
    assert_eq!((presence[1].2, presence[1].3), (30, -1));
    assert_eq!(presence[0].3 + presence[1].3, 0);

    let edges = p.handle(MaterializedLog::DataflowDependency).unwrap().updates();
    assert_eq!(edges.len(), 2);
    assert_eq!(edges[0].1, vec![Datum::Uint64(1), Datum::Uint64(2), Datum::Int64(0)]);
    assert_eq!((edges[0].2, edges[0].3), (10, 1));
    assert_eq!(edges[1].1, edges[0].1);
    assert_eq!((edges[1].2, edges[1].3), (30, -1));
    assert_eq!(edges[0].3 + edges[1].3, 0);
}

#[test]
fn point_lookup_respects_key_and_time() {
    let config = LoggingConfig { granularity: 10, active: all_variants() };
    let mut p = Pipeline::construct(&config);
    let batch = vec![
        (5u64, 0u64, MaterializedEvent::Dataflow(1, true)),
        (20u64, 0u64, MaterializedEvent::Dataflow(1, false)),
        (5u64, 1u64, MaterializedEvent::Dataflow(2, true)),
    ];
    assert!(p.process_batch(batch).is_empty());
    let arr = p.handle(MaterializedLog::DataflowCurrent).unwrap();
    let key = vec![Datum::Uint64(1), Datum::Int64(0)];
    // Before the first bucket boundary nothing is visible.
    assert!(arr.read_at(&key, 9).is_empty());
    // As of the create's bucket, only the insert.
    let at_create = arr.read_at(&key, 10);
    assert_eq!(at_create.len(), 1);
    assert_eq!(at_create[0].1, 1);
    // As of the drop's bucket, insert and retract: net zero.
    let at_drop = arr.read_at(&key, 30);
    assert_eq!(at_drop.len(), 2);
    assert_eq!(at_drop[0].1 + at_drop[1].1, 0);
    // A different key sees only its own dataflow.
    let other = vec![Datum::Uint64(2), Datum::Int64(1)];
    assert_eq!(arr.read_at(&other, 30).len(), 1);
}

#[test]
fn peek_duration_sample_bucket() {
    // Install at raw 100, retire at raw 900 for conn 7 on worker 1: the
    // duration sample lands in bucket (1, 1024).
    let config = LoggingConfig { granularity: 10, active: all_variants() };
    let mut p = Pipeline::construct(&config);
    let peek = Peek::new(42, 3, 7);
    let batch = vec![
        (100u64, 1u64, MaterializedEvent::Peek(peek, true)),
        (900u64, 1u64, MaterializedEvent::Peek(peek, false)),
    ];
    let warnings = p.process_batch(batch);
    assert!(warnings.is_empty());

    let durations = p.handle(MaterializedLog::PeekDuration).unwrap().updates();
    assert_eq!(durations.len(), 1);
    assert_eq!(
        durations[0].1,
        vec![Datum::Int64(1), Datum::Int64(1024), Datum::Int64(1)]
    );
    assert_eq!(durations[0].3, 1);

    let presence = p.handle(MaterializedLog::PeekCurrent).unwrap().updates();
    assert_eq!(presence.len(), 2);
    assert_eq!(presence[0].3, 1);
    assert_eq!(presence[1].3, -1);
    assert_eq!(
        presence[0].1,
        vec![Datum::Uint64(7), Datum::Int64(1), Datum::Uint64(42), Datum::Int64(3)]
    );
}

#[test]
fn retire_without_install_warns_and_emits_nothing() {
    let config = LoggingConfig { granularity: 10, active: all_variants() };
    let mut p = Pipeline::construct(&config);
    let batch = vec![(50u64, 2u64, MaterializedEvent::Peek(Peek::new(1, 0, 9), false))];
    let warnings = p.process_batch(batch);
    assert_eq!(warnings, vec![Warning::RetireWithoutInstall { worker: 2, conn_id: 9 }]);
    assert!(p.handle(MaterializedLog::PeekCurrent).unwrap().updates().is_empty());
    assert!(p.handle(MaterializedLog::PeekDuration).unwrap().updates().is_empty());
}

#[test]
fn duplicate_install_is_detected_not_merged() {
    // Replaying an install for an outstanding peek raises a warning; its
    // `+1` stays visible as an explicit delta on the presence relation.
    let config = LoggingConfig { granularity: 10, active: all_variants() };
    let mut p = Pipeline::construct(&config);
    let peek = Peek::new(8, 0, 3);
    let batch = vec![(10u64, 0u64, MaterializedEvent::Peek(peek, true))];
    assert!(p.process_batch(batch).is_empty());
    let replay = vec![(10u64, 0u64, MaterializedEvent::Peek(peek, true))];
    let warnings = p.process_batch(replay);
    assert_eq!(warnings, vec![Warning::DuplicatePeekInstall { worker: 0, conn_id: 3 }]);
    let presence = p.handle(MaterializedLog::PeekCurrent).unwrap().updates();
    assert_eq!(presence.len(), 2);
    assert_eq!(presence[0].3, 1);
    assert_eq!(presence[1].3, 1);
}

#[test]
fn drop_without_create_warns_but_still_retracts() {
    let config = LoggingConfig { granularity: 10, active: all_variants() };
    let mut p = Pipeline::construct(&config);
    let batch = vec![(5u64, 0u64, MaterializedEvent::Dataflow(9, false))];
    let warnings = p.process_batch(batch);
    assert_eq!(warnings, vec![Warning::DropWithoutCreate { dataflow: 9, worker: 0 }]);
    let presence = p.handle(MaterializedLog::DataflowCurrent).unwrap().updates();
    assert_eq!(presence.len(), 1);
    assert_eq!(presence[0].3, -1);
}

#[test]
fn dependency_without_dataflow_warns_but_still_inserts() {
    let config = LoggingConfig { granularity: 10, active: all_variants() };
    let mut p = Pipeline::construct(&config);
    let batch = vec![
        (5u64, 0u64, MaterializedEvent::DataflowDependency { dataflow: 4, source: 6 }),
    ];
    let warnings = p.process_batch(batch);
    assert_eq!(
        warnings,
        vec![Warning::DependencyWithoutDataflow { dataflow: 4, source: 6, worker: 0 }]
    );
    let edges = p.handle(MaterializedLog::DataflowDependency).unwrap().updates();
    assert_eq!(edges.len(), 1);
    assert_eq!(edges[0].3, 1);
}

#[test]
fn inactive_variant_gets_no_handle_and_no_rows() {
    // Lazy materialization: a variant absent from the active set produces
    // no entry in the handle table, and feeding its events costs nothing.
    let config = LoggingConfig {
        granularity: 10,
        active: vec![MaterializedLog::DataflowCurrent],
    };
    let mut p = Pipeline::construct(&config);
    assert!(p.handle(MaterializedLog::DataflowCurrent).is_some());
    assert!(p.handle(MaterializedLog::KafkaBrokerRtt).is_none());
    assert!(p.handle(MaterializedLog::PeekDuration).is_none());
    assert!(p.handle(MaterializedLog::SourceInfo).is_none());
    let batch = vec![
        (
            3u64,
            0u64,
            MaterializedEvent::KafkaBrokerRtt {
                consumer_name: "c".to_owned(),
                source_id: SourceInstanceId { source_id: 1, dataflow_id: 2 },
                broker_name: "b".to_owned(),
                rtt: rtt_sample(0),
            },
        ),
    ];
    assert!(p.process_batch(batch).is_empty());
    assert!(p.handle(MaterializedLog::KafkaBrokerRtt).is_none());
}

#[test]
fn latest_value_retracts_the_prior_snapshot() {
    // Two samples for one broker: the second retracts the first's row
    // and inserts its own.
    let config = LoggingConfig { granularity: 10, active: all_variants() };
    let mut p = Pipeline::construct(&config);
    let sid = SourceInstanceId { source_id: 5, dataflow_id: 1 };
    let batch = vec![
        (
            1u64,
            0u64,
            MaterializedEvent::KafkaBrokerRtt {
                consumer_name: "consumer".to_owned(),
                source_id: sid,
                broker_name: "broker".to_owned(),
                rtt: rtt_sample(100),
            },
        ),
        (
            2u64,
            0u64,
            MaterializedEvent::KafkaBrokerRtt {
                consumer_name: "consumer".to_owned(),
                source_id: sid,
                broker_name: "broker".to_owned(),
                rtt: rtt_sample(200),
            },
        ),
    ];
    assert!(p.process_batch(batch).is_empty());
    let rows = p.handle(MaterializedLog::KafkaBrokerRtt).unwrap().updates();
    assert_eq!(rows.len(), 3);
    assert_eq!(rows[0].3, 1);
    assert_eq!(rows[1].3, -1);
    assert_eq!(rows[1].1, rows[0].1);
    assert_eq!(rows[2].3, 1);
    assert_eq!(rows[2].1[4], Datum::Int64(200));
    // The key projection holds consumer, source, dataflow and broker.
    assert_eq!(
        rows[0].0,
        vec![
            Datum::Str("consumer".to_owned()),
            Datum::Uint64(5),
            Datum::Int64(1),
            Datum::Str("broker".to_owned()),
        ]
    );
}

#[test]
fn histogram_counts_grow_monotonically() {
    let config = LoggingConfig { granularity: 10, active: all_variants() };
    let mut p = Pipeline::construct(&config);
    let p1 = Peek::new(1, 0, 1);
    let p2 = Peek::new(1, 0, 2);
    // Two peeks with the same 800-tick duration on worker 0.
    let batch = vec![
        (100u64, 0u64, MaterializedEvent::Peek(p1, true)),
        (900u64, 0u64, MaterializedEvent::Peek(p1, false)),
        (1000u64, 0u64, MaterializedEvent::Peek(p2, true)),
        (1800u64, 0u64, MaterializedEvent::Peek(p2, false)),
    ];
    assert!(p.process_batch(batch).is_empty());
    let rows = p.handle(MaterializedLog::PeekDuration).unwrap().updates();
    assert_eq!(rows.len(), 3);
    assert_eq!(rows[0].1, vec![Datum::Int64(0), Datum::Int64(1024), Datum::Int64(1)]);
    assert_eq!(rows[0].3, 1);
    assert_eq!(rows[1].1, vec![Datum::Int64(0), Datum::Int64(1024), Datum::Int64(1)]);
    assert_eq!(rows[1].3, -1);
    assert_eq!(rows[2].1, vec![Datum::Int64(0), Datum::Int64(1024), Datum::Int64(2)]);
    assert_eq!(rows[2].3, 1);
}

#[test]
fn source_info_without_partition_shows_null() {
    let config = LoggingConfig { granularity: 10, active: all_variants() };
    let mut p = Pipeline::construct(&config);
    let batch = vec![
        (
            1u64,
            0u64,
            MaterializedEvent::SourceInfo {
                source_name: "src".to_owned(),
                source_id: SourceInstanceId { source_id: 3, dataflow_id: 4 },
                partition_id: None,
                deltas: SourceSample { offset: 10, timestamp: 20 },
            },
        ),
    ];
    assert!(p.process_batch(batch).is_empty());
    let rows = p.handle(MaterializedLog::SourceInfo).unwrap().updates();
    assert_eq!(rows.len(), 1);
    assert_eq!(
        rows[0].1,
        vec![
            Datum::Str("src".to_owned()),
            Datum::Uint64(3),
            Datum::Int64(4),
            Datum::Null,
            Datum::Int64(10),
            Datum::Int64(20),
        ]
    );
}

#[test]
fn consumer_partition_and_frontier_rows() {
    let config = LoggingConfig { granularity: 10, active: all_variants() };
    let mut p = Pipeline::construct(&config);
    let batch = vec![
        (
            1u64,
            3u64,
            MaterializedEvent::KafkaConsumerPartition {
                consumer_name: "c".to_owned(),
                source_id: SourceInstanceId { source_id: 1, dataflow_id: 2 },
                partition_id: "0".to_owned(),
                stats: PartitionSample {
                    rxmsgs: 1,
                    rxbytes: 2,
                    txmsgs: 3,
                    txbytes: 4,
                    lo_offset: 5,
                    hi_offset: 6,
                    ls_offset: 7,
                    app_offset: 8,
                    consumer_lag: 9,
                    initial_high_offset: 10,
                },
            },
        ),
        (4u64, 3u64, MaterializedEvent::Frontier(77, 123, 1)),
    ];
    assert!(p.process_batch(batch).is_empty());
    let rows = p.handle(MaterializedLog::KafkaConsumerInfo).unwrap().updates();
    assert_eq!(rows.len(), 1);
    assert_eq!(rows[0].1.len(), 14);
    assert_eq!(rows[0].1[0], Datum::Str("c".to_owned()));
    assert_eq!(rows[0].1[13], Datum::Int64(10));

    let fr = p.handle(MaterializedLog::FrontierCurrent).unwrap().updates();
    assert_eq!(fr.len(), 1);
    assert_eq!(fr[0].1, vec![Datum::Uint64(77), Datum::Int64(3), Datum::Int64(123)]);
    // The frontier channel's multiplicity is the event's signed delta.
    assert_eq!(fr[0].3, 1);
    assert_eq!(fr[0].2, 10);
}

#[test]
fn variant_names_and_keys() {
    assert_eq!(MaterializedLog::DataflowCurrent.name(), "dataflow-current");
    assert_eq!(MaterializedLog::PeekDuration.name(), "peek-duration");
    assert_eq!(MaterializedLog::SourceInfo.name(), "source-info");
    assert_eq!(MaterializedLog::DataflowCurrent.index_by(), vec![0, 1]);
    assert_eq!(MaterializedLog::DataflowDependency.index_by(), vec![0, 1, 2]);
    assert_eq!(MaterializedLog::KafkaBrokerRtt.index_by(), vec![0, 1, 2, 3]);
    let config = LoggingConfig { granularity: 10, active: all_variants() };
    let p = Pipeline::construct(&config);
    let arr = p.handle(MaterializedLog::KafkaBrokerRtt).unwrap();
    assert_eq!(arr.key_cols(), &vec![0, 1, 2, 3]);
}
