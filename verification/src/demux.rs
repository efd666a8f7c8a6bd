//! The event demultiplexer: a single linear pass over a batch of events,
//! updating the correlation state and routing each event into one of
//! eight typed output channels as an insert/retract pair or a raw sample.
//!
//! The behaviour of one event is given by the transition function
//! [`demux_step`]; a batch is its left-to-right fold, [`demux_run`].
//! Correlation violations never abort processing: the step emits a
//! [`Warning`] and continues with a best-effort fallback.

use vstd::prelude::*;
use crate::bucket::bucket_of;
use crate::bucket::bucket;
use crate::event::{
    DataflowUpdate, DependencyUpdate, FrontierUpdate, MaterializedEvent, PartitionUpdate,
    PeekDurationUpdate, PeekUpdate, RttUpdate, SourceInfoUpdate, Warning,
};
use crate::pow2::{next_pow2, next_power_of_two};
use crate::state::{DataflowKey, DemuxState, Dependency, PeekKey, StateModel};

verus! {

/// The rows appended to the eight output channels, and the warnings
/// recorded, while processing events.
pub struct DemuxOutput {
    pub dataflow: Vec<DataflowUpdate>,
    pub dependency: Vec<DependencyUpdate>,
    pub frontier: Vec<FrontierUpdate>,
    pub kafka_broker_rtt: Vec<RttUpdate>,
    pub kafka_consumer_info: Vec<PartitionUpdate>,
    pub peek: Vec<PeekUpdate>,
    pub peek_duration: Vec<PeekDurationUpdate>,
    pub source_info: Vec<SourceInfoUpdate>,
    pub warnings: Vec<Warning>,
}

impl DemuxOutput {
    pub fn new() -> (out: DemuxOutput)
        ensures
            out_matches(out, StepOutput::empty()),
    {
        DemuxOutput {
            dataflow: Vec::new(),
            dependency: Vec::new(),
            frontier: Vec::new(),
            kafka_broker_rtt: Vec::new(),
            kafka_consumer_info: Vec::new(),
            peek: Vec::new(),
            peek_duration: Vec::new(),
            source_info: Vec::new(),
            warnings: Vec::new(),
        }
    }
}

/// What one or more steps of the demultiplexer emit, channel by channel.
#[verifier::ext_equal]
pub struct StepOutput {
    pub dataflow: Seq<DataflowUpdate>,
    pub dependency: Seq<DependencyUpdate>,
    pub frontier: Seq<FrontierUpdate>,
    pub kafka_broker_rtt: Seq<RttUpdate>,
    pub kafka_consumer_info: Seq<PartitionUpdate>,
    pub peek: Seq<PeekUpdate>,
    pub peek_duration: Seq<PeekDurationUpdate>,
    pub source_info: Seq<SourceInfoUpdate>,
    pub warnings: Seq<Warning>,
}

impl StepOutput {
    pub open spec fn empty() -> StepOutput {
        StepOutput {
            dataflow: Seq::empty(),
            dependency: Seq::empty(),
            frontier: Seq::empty(),
            kafka_broker_rtt: Seq::empty(),
            kafka_consumer_info: Seq::empty(),
            peek: Seq::empty(),
            peek_duration: Seq::empty(),
            source_info: Seq::empty(),
            warnings: Seq::empty(),
        }
    }

    pub open spec fn concat(self, o: StepOutput) -> StepOutput {
        StepOutput {
            dataflow: self.dataflow + o.dataflow,
            dependency: self.dependency + o.dependency,
            frontier: self.frontier + o.frontier,
            kafka_broker_rtt: self.kafka_broker_rtt + o.kafka_broker_rtt,
            kafka_consumer_info: self.kafka_consumer_info + o.kafka_consumer_info,
            peek: self.peek + o.peek,
            peek_duration: self.peek_duration + o.peek_duration,
            source_info: self.source_info + o.source_info,
            warnings: self.warnings + o.warnings,
        }
    }
}

/// `post` holds exactly what `pre` held, extended by `step`.
pub open spec fn out_extends(pre: DemuxOutput, post: DemuxOutput, step: StepOutput) -> bool {
    &&& post.dataflow@ == pre.dataflow@ + step.dataflow
    &&& post.dependency@ == pre.dependency@ + step.dependency
    &&& post.frontier@ == pre.frontier@ + step.frontier
    &&& post.kafka_broker_rtt@ == pre.kafka_broker_rtt@ + step.kafka_broker_rtt
    &&& post.kafka_consumer_info@ == pre.kafka_consumer_info@ + step.kafka_consumer_info
    &&& post.peek@ == pre.peek@ + step.peek
    &&& post.peek_duration@ == pre.peek_duration@ + step.peek_duration
    &&& post.source_info@ == pre.source_info@ + step.source_info
    &&& post.warnings@ == pre.warnings@ + step.warnings
}

/// `out` holds exactly the rows of `step`.
pub open spec fn out_matches(out: DemuxOutput, step: StepOutput) -> bool {
    &&& out.dataflow@ == step.dataflow
    &&& out.dependency@ == step.dependency
    &&& out.frontier@ == step.frontier
    &&& out.kafka_broker_rtt@ == step.kafka_broker_rtt
    &&& out.kafka_consumer_info@ == step.kafka_consumer_info
    &&& out.peek@ == step.peek
    &&& out.peek_duration@ == step.peek_duration
    &&& out.source_info@ == step.source_info
    &&& out.warnings@ == step.warnings
}

/// The retraction of every dependency edge stored under a dropped
/// dataflow.
pub open spec fn dep_retracts(dataflow: u64, deps: Seq<Dependency>, t: u64) -> Seq<
    DependencyUpdate,
> {
    Seq::new(
        deps.len(),
        |i: int|
            DependencyUpdate {
                dataflow,
                source: deps[i].source,
                worker: deps[i].worker,
                time: t,
                diff: -1i64,
            },
    )
}

/// What machine limits require of one event before it is processed: the
/// bucketed time fits in 64 bits, and a retiring peek's elapsed duration
/// is a representable span.
pub open spec fn event_admissible(
    s: StateModel,
    raw: u64,
    worker: u64,
    e: MaterializedEvent,
    g: u64,
) -> bool {
    &&& g >= 1
    &&& bucket_of(raw as int, g as int) <= u64::MAX
    &&& match e {
        MaterializedEvent::Peek(p, is_install) => {
            (!is_install && s.peeks.contains_key((worker, p.conn_id))) ==> {
                let start = s.peeks[(worker, p.conn_id)];
                start <= raw && raw - start <= 0x8000_0000_0000_0000
            }
        },
        _ => true,
    }
}

/// The demultiplexer's transition function: the state after one event,
/// and the rows the event emits.
pub open spec fn demux_step(
    s: StateModel,
    raw: u64,
    worker: u64,
    e: MaterializedEvent,
    g: u64,
) -> (StateModel, StepOutput) {
    let t = bucket_of(raw as int, g as int) as u64;
    match e {
        MaterializedEvent::Dataflow(id, is_create) => {
            if is_create {
                (
                    StateModel {
                        dataflows: s.dataflows.insert((id, worker), Seq::empty()),
                        peeks: s.peeks,
                    },
                    StepOutput {
                        dataflow: seq![DataflowUpdate { dataflow: id, worker, time: t, diff: 1i64 }],
                        ..StepOutput::empty()
                    },
                )
            } else if s.dataflows.contains_key((id, worker)) {
                (
                    StateModel { dataflows: s.dataflows.remove((id, worker)), peeks: s.peeks },
                    StepOutput {
                        dataflow: seq![DataflowUpdate { dataflow: id, worker, time: t, diff: -1i64 }],
                        dependency: dep_retracts(id, s.dataflows[(id, worker)], t),
                        ..StepOutput::empty()
                    },
                )
            } else {
                (
                    s,
                    StepOutput {
                        dataflow: seq![DataflowUpdate { dataflow: id, worker, time: t, diff: -1i64 }],
                        warnings: seq![Warning::DropWithoutCreate { dataflow: id, worker }],
                        ..StepOutput::empty()
                    },
                )
            }
        },
        MaterializedEvent::DataflowDependency { dataflow, source } => {
            if s.dataflows.contains_key((dataflow, worker)) {
                (
                    StateModel {
                        dataflows: s.dataflows.insert(
                            (dataflow, worker),
                            s.dataflows[(dataflow, worker)].push(Dependency { source, worker }),
                        ),
                        peeks: s.peeks,
                    },
                    StepOutput {
                        dependency: seq![
                            DependencyUpdate { dataflow, source, worker, time: t, diff: 1i64 },
                        ],
                        ..StepOutput::empty()
                    },
                )
            } else {
                (
                    s,
                    StepOutput {
                        dependency: seq![
                            DependencyUpdate { dataflow, source, worker, time: t, diff: 1i64 },
                        ],
                        warnings: seq![
                            Warning::DependencyWithoutDataflow { dataflow, source, worker },
                        ],
                        ..StepOutput::empty()
                    },
                )
            }
        },
        MaterializedEvent::Frontier(relation, logical_time, delta) => {
            (
                s,
                StepOutput {
                    frontier: seq![
                        FrontierUpdate { relation, worker, logical_time, time: t, delta },
                    ],
                    ..StepOutput::empty()
                },
            )
        },
        MaterializedEvent::KafkaBrokerRtt { consumer_name, source_id, broker_name, rtt } => {
            (
                s,
                StepOutput {
                    kafka_broker_rtt: seq![
                        RttUpdate { consumer_name, source_id, broker_name, time: t, rtt },
                    ],
                    ..StepOutput::empty()
                },
            )
        },
        MaterializedEvent::KafkaConsumerPartition {
            consumer_name,
            source_id,
            partition_id,
            stats,
        } => {
            (
                s,
                StepOutput {
                    kafka_consumer_info: seq![
                        PartitionUpdate { consumer_name, source_id, partition_id, time: t, stats },
                    ],
                    ..StepOutput::empty()
                },
            )
        },
        MaterializedEvent::Peek(p, is_install) => {
            let k = (worker, p.conn_id);
            if is_install {
                (
                    StateModel { dataflows: s.dataflows, peeks: s.peeks.insert(k, raw) },
                    StepOutput {
                        peek: seq![PeekUpdate { peek: p, worker, time: t, diff: 1i64 }],
                        warnings: if s.peeks.contains_key(k) {
                            seq![Warning::DuplicatePeekInstall { worker, conn_id: p.conn_id }]
                        } else {
                            Seq::empty()
                        },
                        ..StepOutput::empty()
                    },
                )
            } else if s.peeks.contains_key(k) {
                (
                    StateModel { dataflows: s.dataflows, peeks: s.peeks.remove(k) },
                    StepOutput {
                        peek: seq![PeekUpdate { peek: p, worker, time: t, diff: -1i64 }],
                        peek_duration: seq![
                            PeekDurationUpdate {
                                worker,
                                bucket: next_pow2((raw - s.peeks[k]) as nat) as u64,
                                time: t,
                            },
                        ],
                        ..StepOutput::empty()
                    },
                )
            } else {
                (
                    s,
                    StepOutput {
                        warnings: seq![
                            Warning::RetireWithoutInstall { worker, conn_id: p.conn_id },
                        ],
                        ..StepOutput::empty()
                    },
                )
            }
        },
        MaterializedEvent::SourceInfo { source_name, source_id, partition_id, deltas } => {
            (
                s,
                StepOutput {
                    source_info: seq![
                        SourceInfoUpdate { source_name, source_id, partition_id, time: t, deltas },
                    ],
                    ..StepOutput::empty()
                },
            )
        },
    }
}

proof fn lemma_seq_push_concat<T>(s: Seq<T>, x: T)
    ensures
        s.push(x) == s + seq![x],
{
    assert(s.push(x) =~= s + seq![x]);
}

proof fn lemma_seq_concat_empty<T>(s: Seq<T>)
    ensures
        s == s + Seq::<T>::empty(),
{
    assert(s =~= s + Seq::<T>::empty());
}

/// Processes one event: updates the correlation state and appends the
/// event's rows and warnings to `out`, exactly as [`demux_step`] says.
pub fn process_event(
    state: &mut DemuxState,
    out: &mut DemuxOutput,
    raw: u64,
    worker: u64,
    event: MaterializedEvent,
    granularity: u64,
)
    requires
        old(state).wf(),
        event_admissible(old(state)@, raw, worker, event, granularity),
    ensures
        final(state).wf(),
        final(state)@ == demux_step(old(state)@, raw, worker, event, granularity).0,
        out_extends(
            *old(out),
            *final(out),
            demux_step(old(state)@, raw, worker, event, granularity).1,
        ),
{
    proof {
        lemma_seq_concat_empty(old(out).dataflow@);
        lemma_seq_concat_empty(old(out).dependency@);
        lemma_seq_concat_empty(old(out).frontier@);
        lemma_seq_concat_empty(old(out).kafka_broker_rtt@);
        lemma_seq_concat_empty(old(out).kafka_consumer_info@);
        lemma_seq_concat_empty(old(out).peek@);
        lemma_seq_concat_empty(old(out).peek_duration@);
        lemma_seq_concat_empty(old(out).source_info@);
        lemma_seq_concat_empty(old(out).warnings@);
    }
    let t = bucket(raw, granularity);
    match event {
        MaterializedEvent::Dataflow(id, is_create) => {
            let key = DataflowKey { dataflow: id, worker };
            if is_create {
                let row = DataflowUpdate { dataflow: id, worker, time: t, diff: 1i64 };
                out.dataflow.push(row);
                state.active_dataflows.insert(key, Vec::new());
                proof {
                    lemma_seq_push_concat(old(out).dataflow@, row);
                }
            } else {
                let row = DataflowUpdate { dataflow: id, worker, time: t, diff: -1i64 };
                out.dataflow.push(row);
                proof {
                    lemma_seq_push_concat(old(out).dataflow@, row);
                }
                match state.active_dataflows.remove(&key) {
                    Some(deps) => {
                        let ghost dretracts = dep_retracts(id, deps@, t);
                        let ghost pre_loop = *out;
                        proof {
                            assert(out.dependency@ =~= pre_loop.dependency@ + dretracts.subrange(
                                0,
                                0,
                            ));
                        }
                        let n = deps.len();
                        let mut i: usize = 0;
                        while i < n
                            invariant
                                n == deps@.len(),
                                i <= n,
                                dretracts == dep_retracts(id, deps@, t),
                                out.dependency@ == pre_loop.dependency@ + dretracts.subrange(
                                    0,
                                    i as int,
                                ),
                                out.dataflow@ == pre_loop.dataflow@,
                                out.frontier@ == pre_loop.frontier@,
                                out.kafka_broker_rtt@ == pre_loop.kafka_broker_rtt@,
                                out.kafka_consumer_info@ == pre_loop.kafka_consumer_info@,
                                out.peek@ == pre_loop.peek@,
                                out.peek_duration@ == pre_loop.peek_duration@,
                                out.source_info@ == pre_loop.source_info@,
                                out.warnings@ == pre_loop.warnings@,
                            decreases n - i,
                        {
                            let d = deps[i];
                            out.dependency.push(
                                DependencyUpdate {
                                    dataflow: id,
                                    source: d.source,
                                    worker: d.worker,
                                    time: t,
                                    diff: -1i64,
                                },
                            );
                            proof {
                                assert(dretracts.subrange(0, i as int).push(
                                    dretracts[i as int],
                                ) =~= dretracts.subrange(0, i + 1));
                                assert(out.dependency@ =~= pre_loop.dependency@
                                    + dretracts.subrange(0, i + 1));
                            }
                            i = i + 1;
                        }
                        proof {
                            assert(dretracts.subrange(0, dretracts.len() as int) =~= dretracts);
                        }
                    },
                    None => {
                        let w = Warning::DropWithoutCreate { dataflow: id, worker };
                        out.warnings.push(w);
                        proof {
                            lemma_seq_push_concat(old(out).warnings@, w);
                        }
                    },
                }
            }
        },
        MaterializedEvent::DataflowDependency { dataflow, source } => {
            let key = DataflowKey { dataflow, worker };
            let row = DependencyUpdate { dataflow, source, worker, time: t, diff: 1i64 };
            out.dependency.push(row);
            proof {
                lemma_seq_push_concat(old(out).dependency@, row);
            }
            match state.active_dataflows.remove(&key) {
                Some(mut deps) => {
                    deps.push(Dependency { source, worker });
                    state.active_dataflows.insert(key, deps);
                    proof {
                        assert(state@.dataflows =~= old(state)@.dataflows.insert(
                            (dataflow, worker),
                            old(state)@.dataflows[(dataflow, worker)].push(
                                Dependency { source, worker },
                            ),
                        ));
                    }
                },
                None => {
                    let w = Warning::DependencyWithoutDataflow { dataflow, source, worker };
                    out.warnings.push(w);
                    proof {
                        lemma_seq_push_concat(old(out).warnings@, w);
                    }
                },
            }
        },
        MaterializedEvent::Frontier(relation, logical_time, delta) => {
            let row = FrontierUpdate { relation, worker, logical_time, time: t, delta };
            out.frontier.push(row);
            proof {
                lemma_seq_push_concat(old(out).frontier@, row);
            }
        },
        MaterializedEvent::KafkaBrokerRtt { consumer_name, source_id, broker_name, rtt } => {
            let row = RttUpdate { consumer_name, source_id, broker_name, time: t, rtt };
            let ghost grow = row;
            out.kafka_broker_rtt.push(row);
            proof {
                lemma_seq_push_concat(old(out).kafka_broker_rtt@, grow);
            }
        },
        MaterializedEvent::KafkaConsumerPartition {
            consumer_name,
            source_id,
            partition_id,
            stats,
        } => {
            let row = PartitionUpdate { consumer_name, source_id, partition_id, time: t, stats };
            let ghost grow = row;
            out.kafka_consumer_info.push(row);
            proof {
                lemma_seq_push_concat(old(out).kafka_consumer_info@, grow);
            }
        },
        MaterializedEvent::Peek(p, is_install) => {
            let key = PeekKey { worker, conn_id: p.conn_id };
            if is_install {
                let row = PeekUpdate { peek: p, worker, time: t, diff: 1i64 };
                out.peek.push(row);
                proof {
                    lemma_seq_push_concat(old(out).peek@, row);
                }
                if state.peek_stash.contains_key(&key) {
                    let w = Warning::DuplicatePeekInstall { worker, conn_id: p.conn_id };
                    out.warnings.push(w);
                    proof {
                        lemma_seq_push_concat(old(out).warnings@, w);
                    }
                }
                state.peek_stash.insert(key, raw);
            } else {
                match state.peek_stash.remove(&key) {
                    Some(start) => {
                        let row = PeekUpdate { peek: p, worker, time: t, diff: -1i64 };
                        out.peek.push(row);
                        proof {
                            lemma_seq_push_concat(old(out).peek@, row);
                        }
                        let elapsed = raw - start;
                        let b = next_power_of_two(elapsed);
                        let drow = PeekDurationUpdate { worker, bucket: b, time: t };
                        out.peek_duration.push(drow);
                        proof {
                            lemma_seq_push_concat(old(out).peek_duration@, drow);
                        }
                    },
                    None => {
                        let w = Warning::RetireWithoutInstall { worker, conn_id: p.conn_id };
                        out.warnings.push(w);
                        proof {
                            lemma_seq_push_concat(old(out).warnings@, w);
                        }
                    },
                }
            }
        },
        MaterializedEvent::SourceInfo { source_name, source_id, partition_id, deltas } => {
            let row = SourceInfoUpdate { source_name, source_id, partition_id, time: t, deltas };
            let ghost grow = row;
            out.source_info.push(row);
            proof {
                lemma_seq_push_concat(old(out).source_info@, grow);
            }
        },
    }
}

/// Whether every event of `batch` is admissible when its turn comes.
pub open spec fn batch_admissible(
    s: StateModel,
    batch: Seq<(u64, u64, MaterializedEvent)>,
    g: u64,
) -> bool
    decreases batch.len(),
{
    batch.len() == 0 || {
        &&& event_admissible(s, batch[0].0, batch[0].1, batch[0].2, g)
        &&& batch_admissible(
            demux_step(s, batch[0].0, batch[0].1, batch[0].2, g).0,
            batch.drop_first(),
            g,
        )
    }
}

/// The left-to-right fold of [`demux_step`] over a batch: events are
/// processed in arrival order, each against the state its predecessors
/// left behind, and their emissions are concatenated channel by channel.
pub open spec fn demux_run(
    s: StateModel,
    batch: Seq<(u64, u64, MaterializedEvent)>,
    g: u64,
) -> (StateModel, StepOutput)
    decreases batch.len(),
{
    if batch.len() == 0 {
        (s, StepOutput::empty())
    } else {
        let first = demux_step(s, batch[0].0, batch[0].1, batch[0].2, g);
        let rest = demux_run(first.0, batch.drop_first(), g);
        (rest.0, first.1.concat(rest.1))
    }
}

proof fn lemma_step_output_concat_empty(o: StepOutput)
    ensures
        o.concat(StepOutput::empty()) == o,
        StepOutput::empty().concat(o) == o,
{
    assert(o.concat(StepOutput::empty()) =~= o);
    assert(StepOutput::empty().concat(o) =~= o);
}

proof fn lemma_step_output_concat_assoc(a: StepOutput, b: StepOutput, c: StepOutput)
    ensures
        a.concat(b).concat(c) == a.concat(b.concat(c)),
{
    assert(a.concat(b).concat(c) =~= a.concat(b.concat(c)));
}

/// Extending a batch by one event runs the batch, then the event against
/// the state the batch left behind.
pub proof fn lemma_demux_run_snoc(
    s: StateModel,
    batch: Seq<(u64, u64, MaterializedEvent)>,
    x: (u64, u64, MaterializedEvent),
    g: u64,
)
    ensures
        ({
            let prefix = demux_run(s, batch, g);
            let step = demux_step(prefix.0, x.0, x.1, x.2, g);
            demux_run(s, batch.push(x), g) == (step.0, prefix.1.concat(step.1))
        }),
    decreases batch.len(),
{
    if batch.len() == 0 {
        reveal_with_fuel(demux_run, 2);
        let step = demux_step(s, x.0, x.1, x.2, g);
        assert(batch.push(x)[0] == x);
        assert(batch.push(x).drop_first() =~= Seq::<(u64, u64, MaterializedEvent)>::empty());
        lemma_step_output_concat_empty(step.1);
    } else {
        let first = demux_step(s, batch[0].0, batch[0].1, batch[0].2, g);
        assert(batch.push(x)[0] == batch[0]);
        assert(batch.push(x).drop_first() =~= batch.drop_first().push(x));
        lemma_demux_run_snoc(first.0, batch.drop_first(), x, g);
        let prefix_rest = demux_run(first.0, batch.drop_first(), g);
        let step = demux_step(demux_run(s, batch, g).0, x.0, x.1, x.2, g);
        lemma_step_output_concat_assoc(first.1, prefix_rest.1, step.1);
    }
}

/// Processing two batches in a row is processing their concatenation:
/// nothing is merged or dropped across the boundary, so redelivery of a
/// batch contributes its rows a second time, as explicit deltas.
pub proof fn lemma_demux_run_append(
    s: StateModel,
    b1: Seq<(u64, u64, MaterializedEvent)>,
    b2: Seq<(u64, u64, MaterializedEvent)>,
    g: u64,
)
    ensures
        ({
            let r1 = demux_run(s, b1, g);
            let r2 = demux_run(r1.0, b2, g);
            demux_run(s, b1 + b2, g) == (r2.0, r1.1.concat(r2.1))
        }),
    decreases b1.len(),
{
    if b1.len() == 0 {
        assert(b1 + b2 =~= b2);
        lemma_step_output_concat_empty(demux_run(s, b2, g).1);
    } else {
        let first = demux_step(s, b1[0].0, b1[0].1, b1[0].2, g);
        assert((b1 + b2)[0] == b1[0]);
        assert((b1 + b2).drop_first() =~= b1.drop_first() + b2);
        lemma_demux_run_append(first.0, b1.drop_first(), b2, g);
        let r1rest = demux_run(first.0, b1.drop_first(), g);
        let r2 = demux_run(demux_run(s, b1, g).0, b2, g);
        lemma_step_output_concat_assoc(first.1, r1rest.1, r2.1);
    }
}

/// Processes a batch of events sharing one delivery, in arrival order,
/// returning the rows and warnings of the whole batch.
pub fn process_batch(
    state: &mut DemuxState,
    batch: Vec<(u64, u64, MaterializedEvent)>,
    granularity: u64,
) -> (out: DemuxOutput)
    requires
        old(state).wf(),
        batch_admissible(old(state)@, batch@, granularity),
    ensures
        final(state).wf(),
        final(state)@ == demux_run(old(state)@, batch@, granularity).0,
        out_matches(out, demux_run(old(state)@, batch@, granularity).1),
{
    let ghost s0 = old(state)@;
    let ghost b0 = batch@;
    let mut batch = batch;
    let mut out = DemuxOutput::new();
    let ghost done: int = 0;
    proof {
        assert(b0.subrange(0, 0) =~= Seq::<(u64, u64, MaterializedEvent)>::empty());
        assert(batch@ =~= b0.subrange(0, b0.len() as int));
    }
    while batch.len() > 0
        invariant
            state.wf(),
            0 <= done <= b0.len(),
            batch@ == b0.subrange(done, b0.len() as int),
            batch_admissible(state@, batch@, granularity),
            state@ == demux_run(s0, b0.subrange(0, done), granularity).0,
            out_matches(out, demux_run(s0, b0.subrange(0, done), granularity).1),
        decreases batch@.len(),
    {
        let ghost prefix = b0.subrange(0, done);
        let ghost pre_batch = batch@;
        let (raw, worker, e) = batch.remove(0);
        proof {
            assert(pre_batch[0] == b0[done]);
            assert(batch@ =~= pre_batch.drop_first());
            assert(pre_batch.drop_first() =~= b0.subrange(done + 1, b0.len() as int));
        }
        process_event(state, &mut out, raw, worker, e, granularity);
        proof {
            lemma_demux_run_snoc(s0, prefix, b0[done], granularity);
            assert(prefix.push(b0[done]) =~= b0.subrange(0, done + 1));
            done = done + 1;
        }
    }
    proof {
        assert(done == b0.len());
        assert(b0.subrange(0, b0.len() as int) =~= b0);
    }
    out
}

} // verus!
