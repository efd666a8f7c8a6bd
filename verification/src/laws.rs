//! Properties of the demultiplexer that hold across whole event
//! sequences: lifecycle balance, peek-duration correctness, and the
//! visibility of replays.

use vstd::prelude::*;
use crate::bucket::bucket_of;
use crate::demux::{demux_run, demux_step, dep_retracts, StepOutput};
use crate::event::{
    DataflowUpdate, DependencyUpdate, MaterializedEvent, Peek, PeekDurationUpdate, PeekUpdate,
    Warning,
};
use crate::materialize::{index_key, project, Datum, MaterializedLog, RowUpdate};
use crate::pipeline::{dataflow_row_v, dataflow_rows};
use crate::pow2::next_pow2;
use crate::state::{Dependency, StateModel};

verus! {

/// The net multiplicity the dataflow-presence channel carries for one
/// dataflow on one worker.
pub open spec fn presence_net(out: Seq<DataflowUpdate>, dataflow: u64, worker: u64) -> int
    decreases out.len(),
{
    if out.len() == 0 {
        0
    } else {
        presence_net(out.drop_last(), dataflow, worker) + if out.last().dataflow == dataflow
            && out.last().worker == worker {
            out.last().diff as int
        } else {
            0
        }
    }
}

/// The net multiplicity the dependency-edge channel carries for one edge.
pub open spec fn edge_net(
    out: Seq<DependencyUpdate>,
    dataflow: u64,
    source: u64,
    worker: u64,
) -> int
    decreases out.len(),
{
    if out.len() == 0 {
        0
    } else {
        edge_net(out.drop_last(), dataflow, source, worker) + if out.last().dataflow == dataflow
            && out.last().source == source && out.last().worker == worker {
            out.last().diff as int
        } else {
            0
        }
    }
}

/// How many times `d` occurs in a stored dependency list.
pub open spec fn dep_count(deps: Seq<Dependency>, d: Dependency) -> int
    decreases deps.len(),
{
    if deps.len() == 0 {
        0
    } else {
        dep_count(deps.drop_last(), d) + if deps.last() == d {
            1int
        } else {
            0int
        }
    }
}

/// Whether the state holds `(dataflow, worker)` as an active dataflow,
/// as a multiplicity.
pub open spec fn live(s: StateModel, dataflow: u64, worker: u64) -> int {
    if s.dataflows.contains_key((dataflow, worker)) {
        1
    } else {
        0
    }
}

/// How many copies of the edge `dataflow -> source` on `worker` the state
/// stores.
pub open spec fn stored_count(s: StateModel, dataflow: u64, source: u64, worker: u64) -> int {
    if s.dataflows.contains_key((dataflow, worker)) {
        dep_count(s.dataflows[(dataflow, worker)], Dependency { source, worker })
    } else {
        0
    }
}

/// Every dependency stored under a dataflow entry carries that entry's
/// worker; dependency events only ever add such edges.
pub open spec fn deps_wf(s: StateModel) -> bool {
    forall|k: (u64, u64), i: int|
        #![trigger s.dataflows[k][i]]
        s.dataflows.contains_key(k) && 0 <= i < s.dataflows[k].len() ==> s.dataflows[k][i].worker
            == k.1
}

/// An event whose preconditions in the transition table hold: a create
/// finds no active entry, a drop and a dependency find one.
pub open spec fn event_clean(s: StateModel, worker: u64, e: MaterializedEvent) -> bool {
    match e {
        MaterializedEvent::Dataflow(id, is_create) => {
            if is_create {
                !s.dataflows.contains_key((id, worker))
            } else {
                s.dataflows.contains_key((id, worker))
            }
        },
        MaterializedEvent::DataflowDependency { dataflow, source: _ } => {
            s.dataflows.contains_key((dataflow, worker))
        },
        _ => true,
    }
}

/// A sequence of events each of which is clean against the state its
/// predecessors leave behind.
pub open spec fn batch_clean(
    s: StateModel,
    batch: Seq<(u64, u64, MaterializedEvent)>,
    g: u64,
) -> bool
    decreases batch.len(),
{
    batch.len() == 0 || {
        &&& event_clean(s, batch[0].1, batch[0].2)
        &&& batch_clean(
            demux_step(s, batch[0].0, batch[0].1, batch[0].2, g).0,
            batch.drop_first(),
            g,
        )
    }
}

proof fn lemma_presence_net_concat(
    a: Seq<DataflowUpdate>,
    b: Seq<DataflowUpdate>,
    dataflow: u64,
    worker: u64,
)
    ensures
        presence_net(a + b, dataflow, worker) == presence_net(a, dataflow, worker) + presence_net(
            b,
            dataflow,
            worker,
        ),
    decreases b.len(),
{
    if b.len() == 0 {
        assert(a + b =~= a);
    } else {
        lemma_presence_net_concat(a, b.drop_last(), dataflow, worker);
        assert((a + b).drop_last() =~= a + b.drop_last());
        assert((a + b).last() == b.last());
    }
}

proof fn lemma_edge_net_concat(
    a: Seq<DependencyUpdate>,
    b: Seq<DependencyUpdate>,
    dataflow: u64,
    source: u64,
    worker: u64,
)
    ensures
        edge_net(a + b, dataflow, source, worker) == edge_net(a, dataflow, source, worker)
            + edge_net(b, dataflow, source, worker),
    decreases b.len(),
{
    if b.len() == 0 {
        assert(a + b =~= a);
    } else {
        lemma_edge_net_concat(a, b.drop_last(), dataflow, source, worker);
        assert((a + b).drop_last() =~= a + b.drop_last());
        assert((a + b).last() == b.last());
    }
}

proof fn lemma_dep_count_push(deps: Seq<Dependency>, x: Dependency, d: Dependency)
    ensures
        dep_count(deps.push(x), d) == dep_count(deps, d) + if x == d {
            1int
        } else {
            0int
        },
{
    assert(deps.push(x).drop_last() =~= deps);
}

/// The retractions of a dropped dataflow's stored edges contribute, per
/// edge, exactly minus its stored count.
proof fn lemma_edge_net_retracts(
    id: u64,
    deps: Seq<Dependency>,
    t: u64,
    dataflow: u64,
    source: u64,
    worker: u64,
)
    ensures
        edge_net(dep_retracts(id, deps, t), dataflow, source, worker) == if id == dataflow {
            -dep_count(deps, Dependency { source, worker })
        } else {
            0int
        },
    decreases deps.len(),
{
    let rows = dep_retracts(id, deps, t);
    if deps.len() == 0 {
    } else {
        lemma_edge_net_retracts(id, deps.drop_last(), t, dataflow, source, worker);
        assert(rows.drop_last() =~= dep_retracts(id, deps.drop_last(), t));
        assert(rows.last() == DependencyUpdate {
            dataflow: id,
            source: deps.last().source,
            worker: deps.last().worker,
            time: t,
            diff: -1i64,
        });
    }
}

/// One clean step changes the presence and edge nets by exactly the
/// change it makes to the state, and keeps the stored edges well-formed.
proof fn lemma_step_balance(
    s: StateModel,
    raw: u64,
    worker0: u64,
    e: MaterializedEvent,
    g: u64,
    dataflow: u64,
    source: u64,
    worker: u64,
)
    requires
        deps_wf(s),
        event_clean(s, worker0, e),
    ensures
        ({
            let r = demux_step(s, raw, worker0, e, g);
            &&& deps_wf(r.0)
            &&& presence_net(r.1.dataflow, dataflow, worker) == live(r.0, dataflow, worker) - live(
                s,
                dataflow,
                worker,
            )
            &&& edge_net(r.1.dependency, dataflow, source, worker) == stored_count(
                r.0,
                dataflow,
                source,
                worker,
            ) - stored_count(s, dataflow, source, worker)
        }),
{
    reveal_with_fuel(presence_net, 2);
    reveal_with_fuel(edge_net, 2);
    let r = demux_step(s, raw, worker0, e, g);
    match e {
        MaterializedEvent::Dataflow(id, is_create) => {
            if is_create {
                assert(deps_wf(r.0)) by {
                    assert forall|k: (u64, u64), i: int|
                        r.0.dataflows.contains_key(k) && 0 <= i
                            < r.0.dataflows[k].len() implies #[trigger] r.0.dataflows[k][i].worker
                        == k.1 by {
                        if k != (id, worker0) {
                            assert(s.dataflows[k][i] == r.0.dataflows[k][i]);
                        }
                    }
                }
            } else {
                let deps = s.dataflows[(id, worker0)];
                lemma_edge_net_retracts(id, deps, bucket_of(raw as int, g as int) as u64, dataflow,
                    source, worker);
                assert(deps_wf(r.0)) by {
                    assert forall|k: (u64, u64), i: int|
                        r.0.dataflows.contains_key(k) && 0 <= i
                            < r.0.dataflows[k].len() implies #[trigger] r.0.dataflows[k][i].worker
                        == k.1 by {
                        assert(s.dataflows[k][i] == r.0.dataflows[k][i]);
                    }
                }
                if (dataflow, worker) == (id, worker0) {
                    assert(stored_count(s, dataflow, source, worker) == dep_count(deps,
                        Dependency { source, worker }));
                } else if dataflow == id && worker != worker0 {
                    // stored edges carry their key's worker, so none of the
                    // retracted edges matches `worker` and the stored count
                    // under `worker` is zero
                    assert(dep_count(deps, Dependency { source, worker }) == 0) by {
                        lemma_dep_count_absent(deps, Dependency { source, worker }, worker0,
                            (id, worker0), s);
                    }
                }
            }
        },
        MaterializedEvent::DataflowDependency { dataflow: df, source: src } => {
            let deps = s.dataflows[(df, worker0)];
            let x = Dependency { source: src, worker: worker0 };
            lemma_dep_count_push(deps, x, Dependency { source, worker });
            assert(deps_wf(r.0)) by {
                assert forall|k: (u64, u64), i: int|
                    r.0.dataflows.contains_key(k) && 0 <= i
                        < r.0.dataflows[k].len() implies #[trigger] r.0.dataflows[k][i].worker
                    == k.1 by {
                    if k == (df, worker0) {
                        if i < deps.len() {
                            assert(r.0.dataflows[k][i] == deps[i]);
                            assert(s.dataflows[k][i] == deps[i]);
                        } else {
                            assert(r.0.dataflows[k][i] == x);
                        }
                    } else {
                        assert(s.dataflows[k][i] == r.0.dataflows[k][i]);
                    }
                }
            }
        },
        _ => {},
    }
}

/// Stored dependency lists only hold edges carrying their key's worker,
/// so an edge with any other worker has count zero.
proof fn lemma_dep_count_absent(
    deps: Seq<Dependency>,
    d: Dependency,
    key_worker: u64,
    k: (u64, u64),
    s: StateModel,
)
    requires
        deps_wf(s),
        s.dataflows.contains_key(k),
        s.dataflows[k] == deps,
        k.1 == key_worker,
        d.worker != key_worker,
    ensures
        dep_count(deps, d) == 0,
    decreases deps.len(),
{
    lemma_dep_count_absent_rec(deps, d, key_worker, k, s, deps.len() as int);
    assert(deps.subrange(0, deps.len() as int) =~= deps);
}

proof fn lemma_dep_count_absent_rec(
    deps: Seq<Dependency>,
    d: Dependency,
    key_worker: u64,
    k: (u64, u64),
    s: StateModel,
    n: int,
)
    requires
        deps_wf(s),
        s.dataflows.contains_key(k),
        s.dataflows[k] == deps,
        k.1 == key_worker,
        d.worker != key_worker,
        0 <= n <= deps.len(),
    ensures
        dep_count(deps.subrange(0, n), d) == 0,
    decreases n,
{
    if n == 0 {
        assert(deps.subrange(0, 0) =~= Seq::<Dependency>::empty());
    } else {
        lemma_dep_count_absent_rec(deps, d, key_worker, k, s, n - 1);
        let sub = deps.subrange(0, n);
        assert(sub.drop_last() =~= deps.subrange(0, n - 1));
        assert(sub.last() == deps[n - 1]);
        assert(s.dataflows[k][n - 1].worker == key_worker);
    }
}

/// Running a clean batch changes the presence and edge nets by exactly
/// the difference between the final and initial state.
proof fn lemma_run_balance(
    s: StateModel,
    batch: Seq<(u64, u64, MaterializedEvent)>,
    g: u64,
    dataflow: u64,
    source: u64,
    worker: u64,
)
    requires
        deps_wf(s),
        batch_clean(s, batch, g),
    ensures
        ({
            let r = demux_run(s, batch, g);
            &&& deps_wf(r.0)
            &&& presence_net(r.1.dataflow, dataflow, worker) == live(r.0, dataflow, worker) - live(
                s,
                dataflow,
                worker,
            )
            &&& edge_net(r.1.dependency, dataflow, source, worker) == stored_count(
                r.0,
                dataflow,
                source,
                worker,
            ) - stored_count(s, dataflow, source, worker)
        }),
    decreases batch.len(),
{
    if batch.len() == 0 {
    } else {
        let first = demux_step(s, batch[0].0, batch[0].1, batch[0].2, g);
        lemma_step_balance(s, batch[0].0, batch[0].1, batch[0].2, g, dataflow, source, worker);
        lemma_run_balance(first.0, batch.drop_first(), g, dataflow, source, worker);
        let rest = demux_run(first.0, batch.drop_first(), g);
        lemma_presence_net_concat(first.1.dataflow, rest.1.dataflow, dataflow, worker);
        lemma_edge_net_concat(first.1.dependency, rest.1.dependency, dataflow, source, worker);
    }
}

/// Dataflow lifecycle balance: over any clean sequence of events on which
/// every created dataflow is also dropped (the final active set is
/// empty), the dataflow-presence channel nets to zero for every dataflow,
/// and every dependency edge inserted under a dropped dataflow has been
/// retracted.
///
/// A drop without a matching create is excluded by `batch_clean`: the
/// demultiplexer still emits its unmatched `-1` (after a warning), which
/// no insert balances.
pub proof fn lemma_dataflow_lifecycle_balance(
    batch: Seq<(u64, u64, MaterializedEvent)>,
    g: u64,
    dataflow: u64,
    source: u64,
    worker: u64,
)
    requires
        batch_clean(StateModel::empty(), batch, g),
        demux_run(StateModel::empty(), batch, g).0.dataflows == Map::<
            (u64, u64),
            Seq<Dependency>,
        >::empty(),
    ensures
        presence_net(demux_run(StateModel::empty(), batch, g).1.dataflow, dataflow, worker) == 0,
        edge_net(
            demux_run(StateModel::empty(), batch, g).1.dependency,
            dataflow,
            source,
            worker,
        ) == 0,
{
    lemma_run_balance(StateModel::empty(), batch, g, dataflow, source, worker);
}

/// The net multiplicity an update log carries under one key projection.
pub open spec fn relation_net(rows: Seq<RowUpdate>, key: Seq<Datum>) -> int
    decreases rows.len(),
{
    if rows.len() == 0 {
        0
    } else {
        relation_net(rows.drop_last(), key) + if rows.last().0 == key {
            rows.last().3 as int
        } else {
            0
        }
    }
}

/// On the dataflow-presence relation, whose index key is the whole row,
/// the net under a dataflow's key equals the presence net of the channel.
proof fn lemma_dataflow_relation_net(us: Seq<DataflowUpdate>, dataflow: u64, worker: u64)
    ensures
        relation_net(
            dataflow_rows(us, index_key(MaterializedLog::DataflowCurrent)),
            seq![Datum::Uint64(dataflow), Datum::Int64(worker as i64)],
        ) == presence_net(us, dataflow, worker),
    decreases us.len(),
{
    let key_cols = index_key(MaterializedLog::DataflowCurrent);
    let key = seq![Datum::Uint64(dataflow), Datum::Int64(worker as i64)];
    if us.len() > 0 {
        lemma_dataflow_relation_net(us.drop_last(), dataflow, worker);
        let rows = dataflow_rows(us, key_cols);
        assert(rows.drop_last() =~= dataflow_rows(us.drop_last(), key_cols));
        let u = us.last();
        assert(project(dataflow_row_v(u), key_cols) =~= dataflow_row_v(u));
        if u.dataflow == dataflow && u.worker == worker {
            assert(dataflow_row_v(u) =~= key);
        } else if dataflow_row_v(u) == key {
            assert(dataflow_row_v(u)[0] == key[0]);
            assert(dataflow_row_v(u)[1] == key[1]);
            assert(u.dataflow == dataflow);
            let a = u.worker;
            assert(a as i64 == worker as i64);
            assert(a == worker) by (bit_vector)
                requires
                    a as i64 == worker as i64,
            ;
        }
    }
}

/// Dataflow lifecycle balance, seen on the materialized dataflow-presence
/// relation: over a clean batch in which every created dataflow is also
/// dropped, the relation's updates net to zero under every dataflow's
/// key.
pub proof fn lemma_presence_relation_balance(
    batch: Seq<(u64, u64, MaterializedEvent)>,
    g: u64,
    dataflow: u64,
    worker: u64,
)
    requires
        batch_clean(StateModel::empty(), batch, g),
        demux_run(StateModel::empty(), batch, g).0.dataflows == Map::<
            (u64, u64),
            Seq<Dependency>,
        >::empty(),
    ensures
        relation_net(
            dataflow_rows(
                demux_run(StateModel::empty(), batch, g).1.dataflow,
                index_key(MaterializedLog::DataflowCurrent),
            ),
            seq![Datum::Uint64(dataflow), Datum::Int64(worker as i64)],
        ) == 0,
{
    lemma_dataflow_lifecycle_balance(batch, g, dataflow, 0, worker);
    lemma_dataflow_relation_net(
        demux_run(StateModel::empty(), batch, g).1.dataflow,
        dataflow,
        worker,
    );
}

/// Peek duration correctness: an install at raw time `t0` followed by a
/// retire at raw time `t1` for the same worker and connection emits
/// exactly one duration sample, in bucket `next_pow2(t1 - t0)`, at the
/// retire's bucketed time.
pub proof fn lemma_peek_duration(
    s: StateModel,
    worker: u64,
    install: Peek,
    retire: Peek,
    t0: u64,
    t1: u64,
    g: u64,
)
    requires
        install.conn_id == retire.conn_id,
    ensures
        ({
            let s1 = demux_step(s, t0, worker, MaterializedEvent::Peek(install, true), g).0;
            let step = demux_step(s1, t1, worker, MaterializedEvent::Peek(retire, false), g);
            &&& step.1.peek_duration == seq![
                PeekDurationUpdate {
                    worker,
                    bucket: next_pow2((t1 - t0) as nat) as u64,
                    time: bucket_of(t1 as int, g as int) as u64,
                },
            ]
            &&& step.0.peeks == s1.peeks.remove((worker, retire.conn_id))
        }),
{
}

/// Replaying a peek install that is already outstanding is detected, not
/// silently merged: the step records a duplicate-install warning,
/// overwrites the stashed install time, and its `+1` stays an explicit
/// delta on the presence channel.
pub proof fn lemma_duplicate_install_warns(
    s: StateModel,
    worker: u64,
    p: Peek,
    raw: u64,
    g: u64,
)
    requires
        s.peeks.contains_key((worker, p.conn_id)),
    ensures
        ({
            let step = demux_step(s, raw, worker, MaterializedEvent::Peek(p, true), g);
            &&& step.1.warnings == seq![
                Warning::DuplicatePeekInstall { worker, conn_id: p.conn_id },
            ]
            &&& step.1.peek == seq![
                PeekUpdate {
                    peek: p,
                    worker,
                    time: bucket_of(raw as int, g as int) as u64,
                    diff: 1i64,
                },
            ]
            &&& step.0.peeks == s.peeks.insert((worker, p.conn_id), raw)
        }),
{
}

} // verus!
