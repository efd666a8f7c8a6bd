//! The assembled pipeline: demultiplexed events are routed, for each
//! variant the configuration marks active, through its aggregator into an
//! incrementally maintained indexed relation. Variants not marked active
//! are never computed: they get no arrangement and their aggregator state
//! never changes.

use vstd::prelude::*;
use crate::aggregate::{AggKey, DurationHistogram, LatestValueAgg};
use crate::demux;
use crate::demux::{batch_admissible, demux_run};
use crate::event::{
    DataflowUpdate, DependencyUpdate, FrontierUpdate, MaterializedEvent, PartitionSample,
    PartitionUpdate, PeekDurationUpdate, PeekUpdate, RttSample, RttUpdate, SourceInfoUpdate,
    SourceInstanceId, SourceSample, Warning,
};
use crate::materialize::{
    arr_updates, index_key, lemma_index_key_bounds, project, Arrangement, Datum, MaterializedLog,
    Row, RowUpdate,
};
use crate::state::{DemuxState, StateModel};

verus! {

/// The view type of an aggregator key.
pub type AggKeyV = (Seq<char>, SourceInstanceId, Option<Seq<char>>);

/// What the surrounding configuration supplies: the bucketing width, in
/// the bucketer's unit, and the set of variants to materialize.
pub struct LoggingConfig {
    pub granularity: u64,
    pub active: Vec<MaterializedLog>,
}

pub open spec fn dataflow_row_v(u: DataflowUpdate) -> Seq<Datum> {
    seq![Datum::Uint64(u.dataflow), Datum::Int64(u.worker as i64)]
}

pub open spec fn dependency_row_v(u: DependencyUpdate) -> Seq<Datum> {
    seq![Datum::Uint64(u.dataflow), Datum::Uint64(u.source), Datum::Int64(u.worker as i64)]
}

pub open spec fn frontier_row_v(u: FrontierUpdate) -> Seq<Datum> {
    seq![
        Datum::Uint64(u.relation),
        Datum::Int64(u.worker as i64),
        Datum::Int64(u.logical_time as i64),
    ]
}

pub open spec fn peek_row_v(u: PeekUpdate) -> Seq<Datum> {
    seq![
        Datum::Uint64(u.peek.conn_id as u64),
        Datum::Int64(u.worker as i64),
        Datum::Uint64(u.peek.id),
        Datum::Int64(u.peek.time as i64),
    ]
}

pub open spec fn rtt_row_v(u: RttUpdate, s: RttSample) -> Seq<Datum> {
    seq![
        Datum::Str(u.consumer_name),
        Datum::Uint64(u.source_id.source_id),
        Datum::Int64(u.source_id.dataflow_id as i64),
        Datum::Str(u.broker_name),
        Datum::Int64(s.min),
        Datum::Int64(s.max),
        Datum::Int64(s.avg),
        Datum::Int64(s.sum),
        Datum::Int64(s.cnt),
        Datum::Int64(s.stddev),
        Datum::Int64(s.p50),
        Datum::Int64(s.p75),
        Datum::Int64(s.p90),
        Datum::Int64(s.p95),
        Datum::Int64(s.p99),
        Datum::Int64(s.p99_99),
    ]
}

pub open spec fn partition_row_v(u: PartitionUpdate, s: PartitionSample) -> Seq<Datum> {
    seq![
        Datum::Str(u.consumer_name),
        Datum::Uint64(u.source_id.source_id),
        Datum::Int64(u.source_id.dataflow_id as i64),
        Datum::Str(u.partition_id),
        Datum::Int64(s.rxmsgs),
        Datum::Int64(s.rxbytes),
        Datum::Int64(s.txmsgs),
        Datum::Int64(s.txbytes),
        Datum::Int64(s.lo_offset),
        Datum::Int64(s.hi_offset),
        Datum::Int64(s.ls_offset),
        Datum::Int64(s.app_offset),
        Datum::Int64(s.consumer_lag),
        Datum::Int64(s.initial_high_offset),
    ]
}

pub open spec fn source_row_v(u: SourceInfoUpdate, s: SourceSample) -> Seq<Datum> {
    seq![
        Datum::Str(u.source_name),
        Datum::Uint64(u.source_id.source_id),
        Datum::Int64(u.source_id.dataflow_id as i64),
        match u.partition_id {
            Some(p) => Datum::Str(p),
            None => Datum::Null,
        },
        Datum::Int64(s.offset),
        Datum::Int64(s.timestamp),
    ]
}

pub open spec fn duration_row_v(worker: u64, bucket: u64, count: u64) -> Seq<Datum> {
    seq![Datum::Int64(worker as i64), Datum::Int64(bucket as i64), Datum::Int64(count as i64)]
}

pub open spec fn rtt_key_v(u: RttUpdate) -> AggKeyV {
    (u.consumer_name@, u.source_id, Some(u.broker_name@))
}

pub open spec fn partition_key_v(u: PartitionUpdate) -> AggKeyV {
    (u.consumer_name@, u.source_id, Some(u.partition_id@))
}

pub open spec fn source_key_v(u: SourceInfoUpdate) -> AggKeyV {
    (
        u.source_name@,
        u.source_id,
        match u.partition_id {
            Some(p) => Some(p@),
            None => None,
        },
    )
}

/// The rows a raw-mirror channel contributes, one triple per update.
pub open spec fn dataflow_rows(us: Seq<DataflowUpdate>, key: Seq<usize>) -> Seq<RowUpdate> {
    Seq::new(
        us.len(),
        |i: int| (project(dataflow_row_v(us[i]), key), dataflow_row_v(us[i]), us[i].time, us[i].diff),
    )
}

pub open spec fn dependency_rows(us: Seq<DependencyUpdate>, key: Seq<usize>) -> Seq<RowUpdate> {
    Seq::new(
        us.len(),
        |i: int| (project(dependency_row_v(us[i]), key), dependency_row_v(us[i]), us[i].time, us[i].diff),
    )
}

pub open spec fn frontier_rows(us: Seq<FrontierUpdate>, key: Seq<usize>) -> Seq<RowUpdate> {
    Seq::new(
        us.len(),
        |i: int| (project(frontier_row_v(us[i]), key), frontier_row_v(us[i]), us[i].time, us[i].delta),
    )
}

pub open spec fn peek_rows(us: Seq<PeekUpdate>, key: Seq<usize>) -> Seq<RowUpdate> {
    Seq::new(
        us.len(),
        |i: int| (project(peek_row_v(us[i]), key), peek_row_v(us[i]), us[i].time, us[i].diff),
    )
}

/// The latest-value map after a channel's samples have been recorded.
pub open spec fn rtt_map(
    m: Map<AggKeyV, RttSample>,
    us: Seq<RttUpdate>,
) -> Map<AggKeyV, RttSample>
    decreases us.len(),
{
    if us.len() == 0 {
        m
    } else {
        rtt_map(m, us.drop_last()).insert(rtt_key_v(us.last()), us.last().rtt)
    }
}

/// The display rows of a latest-value channel: per sample, a retraction
/// of the previously displayed row, if any, and an insertion of the new
/// one.
pub open spec fn rtt_rows(
    m: Map<AggKeyV, RttSample>,
    us: Seq<RttUpdate>,
    key: Seq<usize>,
) -> Seq<RowUpdate>
    decreases us.len(),
{
    if us.len() == 0 {
        Seq::empty()
    } else {
        let mprev = rtt_map(m, us.drop_last());
        let u = us.last();
        let k = rtt_key_v(u);
        let newrow = rtt_row_v(u, u.rtt);
        rtt_rows(m, us.drop_last(), key) + if mprev.contains_key(k) {
            seq![
                (project(rtt_row_v(u, mprev[k]), key), rtt_row_v(u, mprev[k]), u.time, -1i64),
                (project(newrow, key), newrow, u.time, 1i64),
            ]
        } else {
            seq![(project(newrow, key), newrow, u.time, 1i64)]
        }
    }
}

pub open spec fn partition_map(
    m: Map<AggKeyV, PartitionSample>,
    us: Seq<PartitionUpdate>,
) -> Map<AggKeyV, PartitionSample>
    decreases us.len(),
{
    if us.len() == 0 {
        m
    } else {
        partition_map(m, us.drop_last()).insert(partition_key_v(us.last()), us.last().stats)
    }
}

pub open spec fn partition_rows(
    m: Map<AggKeyV, PartitionSample>,
    us: Seq<PartitionUpdate>,
    key: Seq<usize>,
) -> Seq<RowUpdate>
    decreases us.len(),
{
    if us.len() == 0 {
        Seq::empty()
    } else {
        let mprev = partition_map(m, us.drop_last());
        let u = us.last();
        let k = partition_key_v(u);
        let newrow = partition_row_v(u, u.stats);
        partition_rows(m, us.drop_last(), key) + if mprev.contains_key(k) {
            seq![
                (
                    project(partition_row_v(u, mprev[k]), key),
                    partition_row_v(u, mprev[k]),
                    u.time,
                    -1i64,
                ),
                (project(newrow, key), newrow, u.time, 1i64),
            ]
        } else {
            seq![(project(newrow, key), newrow, u.time, 1i64)]
        }
    }
}

pub open spec fn source_map(
    m: Map<AggKeyV, SourceSample>,
    us: Seq<SourceInfoUpdate>,
) -> Map<AggKeyV, SourceSample>
    decreases us.len(),
{
    if us.len() == 0 {
        m
    } else {
        source_map(m, us.drop_last()).insert(source_key_v(us.last()), us.last().deltas)
    }
}

pub open spec fn source_rows(
    m: Map<AggKeyV, SourceSample>,
    us: Seq<SourceInfoUpdate>,
    key: Seq<usize>,
) -> Seq<RowUpdate>
    decreases us.len(),
{
    if us.len() == 0 {
        Seq::empty()
    } else {
        let mprev = source_map(m, us.drop_last());
        let u = us.last();
        let k = source_key_v(u);
        let newrow = source_row_v(u, u.deltas);
        source_rows(m, us.drop_last(), key) + if mprev.contains_key(k) {
            seq![
                (project(source_row_v(u, mprev[k]), key), source_row_v(u, mprev[k]), u.time, -1i64),
                (project(newrow, key), newrow, u.time, 1i64),
            ]
        } else {
            seq![(project(newrow, key), newrow, u.time, 1i64)]
        }
    }
}

/// The histogram counts after a channel's duration samples.
pub open spec fn duration_counts(
    m: Map<(u64, u64), u64>,
    us: Seq<PeekDurationUpdate>,
) -> Map<(u64, u64), u64>
    decreases us.len(),
{
    if us.len() == 0 {
        m
    } else {
        let mprev = duration_counts(m, us.drop_last());
        let u = us.last();
        let k = (u.worker, u.bucket);
        let c = if mprev.contains_key(k) {
            mprev[k]
        } else {
            0u64
        };
        mprev.insert(k, (c + 1) as u64)
    }
}

/// No histogram count reaches the 64-bit limit while the channel is
/// folded in.
pub open spec fn duration_fits(m: Map<(u64, u64), u64>, us: Seq<PeekDurationUpdate>) -> bool
    decreases us.len(),
{
    us.len() == 0 || {
        let mprev = duration_counts(m, us.drop_last());
        let k = (us.last().worker, us.last().bucket);
        &&& duration_fits(m, us.drop_last())
        &&& (mprev.contains_key(k) ==> mprev[k] < u64::MAX)
    }
}

/// The display rows of the duration histogram: per sample, a retraction
/// of the bucket's previously shown count row, if any, and an insertion
/// of the incremented one.
pub open spec fn duration_rows(
    m: Map<(u64, u64), u64>,
    us: Seq<PeekDurationUpdate>,
    key: Seq<usize>,
) -> Seq<RowUpdate>
    decreases us.len(),
{
    if us.len() == 0 {
        Seq::empty()
    } else {
        let mprev = duration_counts(m, us.drop_last());
        let u = us.last();
        let k = (u.worker, u.bucket);
        let c = if mprev.contains_key(k) {
            mprev[k]
        } else {
            0u64
        };
        let newrow = duration_row_v(u.worker, u.bucket, (c + 1) as u64);
        duration_rows(m, us.drop_last(), key) + if c > 0 {
            seq![
                (
                    project(duration_row_v(u.worker, u.bucket, c), key),
                    duration_row_v(u.worker, u.bucket, c),
                    u.time,
                    -1i64,
                ),
                (project(newrow, key), newrow, u.time, 1i64),
            ]
        } else {
            seq![(project(newrow, key), newrow, u.time, 1i64)]
        }
    }
}

fn make_dataflow_row(u: &DataflowUpdate) -> (r: Row)
    ensures
        r@ == dataflow_row_v(*u),
{
    let mut r: Row = Vec::new();
    r.push(Datum::Uint64(u.dataflow));
    r.push(Datum::Int64(u.worker as i64));
    proof {
        assert(r@ =~= dataflow_row_v(*u));
    }
    r
}

fn make_dependency_row(u: &DependencyUpdate) -> (r: Row)
    ensures
        r@ == dependency_row_v(*u),
{
    let mut r: Row = Vec::new();
    r.push(Datum::Uint64(u.dataflow));
    r.push(Datum::Uint64(u.source));
    r.push(Datum::Int64(u.worker as i64));
    proof {
        assert(r@ =~= dependency_row_v(*u));
    }
    r
}

fn make_frontier_row(u: &FrontierUpdate) -> (r: Row)
    ensures
        r@ == frontier_row_v(*u),
{
    let mut r: Row = Vec::new();
    r.push(Datum::Uint64(u.relation));
    r.push(Datum::Int64(u.worker as i64));
    r.push(Datum::Int64(u.logical_time as i64));
    proof {
        assert(r@ =~= frontier_row_v(*u));
    }
    r
}

fn make_peek_row(u: &PeekUpdate) -> (r: Row)
    ensures
        r@ == peek_row_v(*u),
{
    let mut r: Row = Vec::new();
    r.push(Datum::Uint64(u.peek.conn_id as u64));
    r.push(Datum::Int64(u.worker as i64));
    r.push(Datum::Uint64(u.peek.id));
    r.push(Datum::Int64(u.peek.time as i64));
    proof {
        assert(r@ =~= peek_row_v(*u));
    }
    r
}

fn make_rtt_row(u: &RttUpdate, s: RttSample) -> (r: Row)
    ensures
        r@ == rtt_row_v(*u, s),
{
    let mut r: Row = Vec::new();
    r.push(Datum::Str(u.consumer_name.clone()));
    r.push(Datum::Uint64(u.source_id.source_id));
    r.push(Datum::Int64(u.source_id.dataflow_id as i64));
    r.push(Datum::Str(u.broker_name.clone()));
    r.push(Datum::Int64(s.min));
    r.push(Datum::Int64(s.max));
    r.push(Datum::Int64(s.avg));
    r.push(Datum::Int64(s.sum));
    r.push(Datum::Int64(s.cnt));
    r.push(Datum::Int64(s.stddev));
    r.push(Datum::Int64(s.p50));
    r.push(Datum::Int64(s.p75));
    r.push(Datum::Int64(s.p90));
    r.push(Datum::Int64(s.p95));
    r.push(Datum::Int64(s.p99));
    r.push(Datum::Int64(s.p99_99));
    proof {
        assert(r@ =~= rtt_row_v(*u, s));
    }
    r
}

fn make_partition_row(u: &PartitionUpdate, s: PartitionSample) -> (r: Row)
    ensures
        r@ == partition_row_v(*u, s),
{
    let mut r: Row = Vec::new();
    r.push(Datum::Str(u.consumer_name.clone()));
    r.push(Datum::Uint64(u.source_id.source_id));
    r.push(Datum::Int64(u.source_id.dataflow_id as i64));
    r.push(Datum::Str(u.partition_id.clone()));
    r.push(Datum::Int64(s.rxmsgs));
    r.push(Datum::Int64(s.rxbytes));
    r.push(Datum::Int64(s.txmsgs));
    r.push(Datum::Int64(s.txbytes));
    r.push(Datum::Int64(s.lo_offset));
    r.push(Datum::Int64(s.hi_offset));
    r.push(Datum::Int64(s.ls_offset));
    r.push(Datum::Int64(s.app_offset));
    r.push(Datum::Int64(s.consumer_lag));
    r.push(Datum::Int64(s.initial_high_offset));
    proof {
        assert(r@ =~= partition_row_v(*u, s));
    }
    r
}

fn make_source_row(u: &SourceInfoUpdate, s: SourceSample) -> (r: Row)
    ensures
        r@ == source_row_v(*u, s),
{
    let mut r: Row = Vec::new();
    r.push(Datum::Str(u.source_name.clone()));
    r.push(Datum::Uint64(u.source_id.source_id));
    r.push(Datum::Int64(u.source_id.dataflow_id as i64));
    match &u.partition_id {
        Some(p) => {
            r.push(Datum::Str(p.clone()));
        },
        None => {
            r.push(Datum::Null);
        },
    }
    r.push(Datum::Int64(s.offset));
    r.push(Datum::Int64(s.timestamp));
    proof {
        assert(r@ =~= source_row_v(*u, s));
    }
    r
}

fn make_duration_row(worker: u64, bucket: u64, count: u64) -> (r: Row)
    ensures
        r@ == duration_row_v(worker, bucket, count),
{
    let mut r: Row = Vec::new();
    r.push(Datum::Int64(worker as i64));
    r.push(Datum::Int64(bucket as i64));
    r.push(Datum::Int64(count as i64));
    proof {
        assert(r@ =~= duration_row_v(worker, bucket, count));
    }
    r
}

fn route_dataflow(arr: &mut Arrangement, us: &Vec<DataflowUpdate>)
    requires
        forall|j: int|
            0 <= j < old(arr).spec_key_cols().len() ==> (#[trigger] old(arr).spec_key_cols()[j])
                < 2,
    ensures
        final(arr).spec_key_cols() == old(arr).spec_key_cols(),
        arr_updates(*final(arr)) == arr_updates(*old(arr)) + dataflow_rows(
            us@,
            old(arr).spec_key_cols(),
        ),
{
    let ghost key = arr.spec_key_cols();
    let ghost base = arr_updates(*arr);
    proof {
        assert(base + dataflow_rows(us@.subrange(0, 0), key) =~= base);
    }
    let n = us.len();
    let mut i: usize = 0;
    while i < n
        invariant
            n == us@.len(),
            i <= n,
            arr.spec_key_cols() == key,
            forall|j: int| 0 <= j < key.len() ==> (#[trigger] key[j]) < 2,
            arr_updates(*arr) == base + dataflow_rows(us@.subrange(0, i as int), key),
        decreases n - i,
    {
        let u = us[i];
        let row = make_dataflow_row(&u);
        arr.append(row, u.time, u.diff);
        proof {
            assert(arr_updates(*arr) =~= base + dataflow_rows(us@.subrange(0, i + 1), key));
        }
        i = i + 1;
    }
    proof {
        assert(us@.subrange(0, us@.len() as int) =~= us@);
    }
}

fn route_dependency(arr: &mut Arrangement, us: &Vec<DependencyUpdate>)
    requires
        forall|j: int|
            0 <= j < old(arr).spec_key_cols().len() ==> (#[trigger] old(arr).spec_key_cols()[j])
                < 3,
    ensures
        final(arr).spec_key_cols() == old(arr).spec_key_cols(),
        arr_updates(*final(arr)) == arr_updates(*old(arr)) + dependency_rows(
            us@,
            old(arr).spec_key_cols(),
        ),
{
    let ghost key = arr.spec_key_cols();
    let ghost base = arr_updates(*arr);
    proof {
        assert(base + dependency_rows(us@.subrange(0, 0), key) =~= base);
    }
    let n = us.len();
    let mut i: usize = 0;
    while i < n
        invariant
            n == us@.len(),
            i <= n,
            arr.spec_key_cols() == key,
            forall|j: int| 0 <= j < key.len() ==> (#[trigger] key[j]) < 3,
            arr_updates(*arr) == base + dependency_rows(us@.subrange(0, i as int), key),
        decreases n - i,
    {
        let u = us[i];
        let row = make_dependency_row(&u);
        arr.append(row, u.time, u.diff);
        proof {
            assert(arr_updates(*arr) =~= base + dependency_rows(us@.subrange(0, i + 1), key));
        }
        i = i + 1;
    }
    proof {
        assert(us@.subrange(0, us@.len() as int) =~= us@);
    }
}

fn route_frontier(arr: &mut Arrangement, us: &Vec<FrontierUpdate>)
    requires
        forall|j: int|
            0 <= j < old(arr).spec_key_cols().len() ==> (#[trigger] old(arr).spec_key_cols()[j])
                < 3,
    ensures
        final(arr).spec_key_cols() == old(arr).spec_key_cols(),
        arr_updates(*final(arr)) == arr_updates(*old(arr)) + frontier_rows(
            us@,
            old(arr).spec_key_cols(),
        ),
{
    let ghost key = arr.spec_key_cols();
    let ghost base = arr_updates(*arr);
    proof {
        assert(base + frontier_rows(us@.subrange(0, 0), key) =~= base);
    }
    let n = us.len();
    let mut i: usize = 0;
    while i < n
        invariant
            n == us@.len(),
            i <= n,
            arr.spec_key_cols() == key,
            forall|j: int| 0 <= j < key.len() ==> (#[trigger] key[j]) < 3,
            arr_updates(*arr) == base + frontier_rows(us@.subrange(0, i as int), key),
        decreases n - i,
    {
        let u = us[i];
        let row = make_frontier_row(&u);
        arr.append(row, u.time, u.delta);
        proof {
            assert(arr_updates(*arr) =~= base + frontier_rows(us@.subrange(0, i + 1), key));
        }
        i = i + 1;
    }
    proof {
        assert(us@.subrange(0, us@.len() as int) =~= us@);
    }
}

fn route_peek(arr: &mut Arrangement, us: &Vec<PeekUpdate>)
    requires
        forall|j: int|
            0 <= j < old(arr).spec_key_cols().len() ==> (#[trigger] old(arr).spec_key_cols()[j])
                < 4,
    ensures
        final(arr).spec_key_cols() == old(arr).spec_key_cols(),
        arr_updates(*final(arr)) == arr_updates(*old(arr)) + peek_rows(
            us@,
            old(arr).spec_key_cols(),
        ),
{
    let ghost key = arr.spec_key_cols();
    let ghost base = arr_updates(*arr);
    proof {
        assert(base + peek_rows(us@.subrange(0, 0), key) =~= base);
    }
    let n = us.len();
    let mut i: usize = 0;
    while i < n
        invariant
            n == us@.len(),
            i <= n,
            arr.spec_key_cols() == key,
            forall|j: int| 0 <= j < key.len() ==> (#[trigger] key[j]) < 4,
            arr_updates(*arr) == base + peek_rows(us@.subrange(0, i as int), key),
        decreases n - i,
    {
        let u = us[i];
        let row = make_peek_row(&u);
        arr.append(row, u.time, u.diff);
        proof {
            assert(arr_updates(*arr) =~= base + peek_rows(us@.subrange(0, i + 1), key));
        }
        i = i + 1;
    }
    proof {
        assert(us@.subrange(0, us@.len() as int) =~= us@);
    }
}

fn route_rtt(agg: &mut LatestValueAgg<RttSample>, arr: &mut Arrangement, us: &Vec<RttUpdate>)
    requires
        old(agg).wf(),
        forall|j: int|
            0 <= j < old(arr).spec_key_cols().len() ==> (#[trigger] old(arr).spec_key_cols()[j])
                < 16,
    ensures
        final(agg).wf(),
        final(agg)@ == rtt_map(old(agg)@, us@),
        final(arr).spec_key_cols() == old(arr).spec_key_cols(),
        arr_updates(*final(arr)) == arr_updates(*old(arr)) + rtt_rows(
            old(agg)@,
            us@,
            old(arr).spec_key_cols(),
        ),
{
    let ghost key = arr.spec_key_cols();
    let ghost base = arr_updates(*arr);
    let ghost m0 = agg@;
    proof {
        assert(base + rtt_rows(m0, us@.subrange(0, 0), key) =~= base);
    }
    let n = us.len();
    let mut i: usize = 0;
    while i < n
        invariant
            n == us@.len(),
            i <= n,
            agg.wf(),
            agg@ == rtt_map(m0, us@.subrange(0, i as int)),
            arr.spec_key_cols() == key,
            forall|j: int| 0 <= j < key.len() ==> (#[trigger] key[j]) < 16,
            arr_updates(*arr) == base + rtt_rows(m0, us@.subrange(0, i as int), key),
        decreases n - i,
    {
        let u = &us[i];
        let akey = AggKey {
            name: u.consumer_name.clone(),
            source: u.source_id,
            detail: Some(u.broker_name.clone()),
        };
        proof {
            assert(akey@ == rtt_key_v(us@[i as int]));
            assert(us@.subrange(0, i + 1).drop_last() =~= us@.subrange(0, i as int));
            assert(us@.subrange(0, i + 1).last() == us@[i as int]);
        }
        let prev = agg.update(akey, u.rtt);
        match prev {
            Some(old_sample) => {
                let row = make_rtt_row(u, old_sample);
                arr.append(row, u.time, -1);
            },
            None => {},
        }
        let row2 = make_rtt_row(u, u.rtt);
        arr.append(row2, u.time, 1);
        proof {
            assert(arr_updates(*arr) =~= base + rtt_rows(m0, us@.subrange(0, i + 1), key));
        }
        i = i + 1;
    }
    proof {
        assert(us@.subrange(0, us@.len() as int) =~= us@);
    }
}

fn route_partition(
    agg: &mut LatestValueAgg<PartitionSample>,
    arr: &mut Arrangement,
    us: &Vec<PartitionUpdate>,
)
    requires
        old(agg).wf(),
        forall|j: int|
            0 <= j < old(arr).spec_key_cols().len() ==> (#[trigger] old(arr).spec_key_cols()[j])
                < 14,
    ensures
        final(agg).wf(),
        final(agg)@ == partition_map(old(agg)@, us@),
        final(arr).spec_key_cols() == old(arr).spec_key_cols(),
        arr_updates(*final(arr)) == arr_updates(*old(arr)) + partition_rows(
            old(agg)@,
            us@,
            old(arr).spec_key_cols(),
        ),
{
    let ghost key = arr.spec_key_cols();
    let ghost base = arr_updates(*arr);
    let ghost m0 = agg@;
    proof {
        assert(base + partition_rows(m0, us@.subrange(0, 0), key) =~= base);
    }
    let n = us.len();
    let mut i: usize = 0;
    while i < n
        invariant
            n == us@.len(),
            i <= n,
            agg.wf(),
            agg@ == partition_map(m0, us@.subrange(0, i as int)),
            arr.spec_key_cols() == key,
            forall|j: int| 0 <= j < key.len() ==> (#[trigger] key[j]) < 14,
            arr_updates(*arr) == base + partition_rows(m0, us@.subrange(0, i as int), key),
        decreases n - i,
    {
        let u = &us[i];
        let akey = AggKey {
            name: u.consumer_name.clone(),
            source: u.source_id,
            detail: Some(u.partition_id.clone()),
        };
        proof {
            assert(akey@ == partition_key_v(us@[i as int]));
            assert(us@.subrange(0, i + 1).drop_last() =~= us@.subrange(0, i as int));
            assert(us@.subrange(0, i + 1).last() == us@[i as int]);
        }
        let prev = agg.update(akey, u.stats);
        match prev {
            Some(old_sample) => {
                let row = make_partition_row(u, old_sample);
                arr.append(row, u.time, -1);
            },
            None => {},
        }
        let row2 = make_partition_row(u, u.stats);
        arr.append(row2, u.time, 1);
        proof {
            assert(arr_updates(*arr) =~= base + partition_rows(m0, us@.subrange(0, i + 1), key));
        }
        i = i + 1;
    }
    proof {
        assert(us@.subrange(0, us@.len() as int) =~= us@);
    }
}

fn route_source(
    agg: &mut LatestValueAgg<SourceSample>,
    arr: &mut Arrangement,
    us: &Vec<SourceInfoUpdate>,
)
    requires
        old(agg).wf(),
        forall|j: int|
            0 <= j < old(arr).spec_key_cols().len() ==> (#[trigger] old(arr).spec_key_cols()[j])
                < 6,
    ensures
        final(agg).wf(),
        final(agg)@ == source_map(old(agg)@, us@),
        final(arr).spec_key_cols() == old(arr).spec_key_cols(),
        arr_updates(*final(arr)) == arr_updates(*old(arr)) + source_rows(
            old(agg)@,
            us@,
            old(arr).spec_key_cols(),
        ),
{
    let ghost key = arr.spec_key_cols();
    let ghost base = arr_updates(*arr);
    let ghost m0 = agg@;
    proof {
        assert(base + source_rows(m0, us@.subrange(0, 0), key) =~= base);
    }
    let n = us.len();
    let mut i: usize = 0;
    while i < n
        invariant
            n == us@.len(),
            i <= n,
            agg.wf(),
            agg@ == source_map(m0, us@.subrange(0, i as int)),
            arr.spec_key_cols() == key,
            forall|j: int| 0 <= j < key.len() ==> (#[trigger] key[j]) < 6,
            arr_updates(*arr) == base + source_rows(m0, us@.subrange(0, i as int), key),
        decreases n - i,
    {
        let u = &us[i];
        let detail = match &u.partition_id {
            Some(p) => Some(p.clone()),
            None => None,
        };
        let akey = AggKey { name: u.source_name.clone(), source: u.source_id, detail };
        proof {
            assert(akey@ == source_key_v(us@[i as int]));
            assert(us@.subrange(0, i + 1).drop_last() =~= us@.subrange(0, i as int));
            assert(us@.subrange(0, i + 1).last() == us@[i as int]);
        }
        let prev = agg.update(akey, u.deltas);
        match prev {
            Some(old_sample) => {
                let row = make_source_row(u, old_sample);
                arr.append(row, u.time, -1);
            },
            None => {},
        }
        let row2 = make_source_row(u, u.deltas);
        arr.append(row2, u.time, 1);
        proof {
            assert(arr_updates(*arr) =~= base + source_rows(m0, us@.subrange(0, i + 1), key));
        }
        i = i + 1;
    }
    proof {
        assert(us@.subrange(0, us@.len() as int) =~= us@);
    }
}

proof fn lemma_duration_fits_prefix(
    m: Map<(u64, u64), u64>,
    us: Seq<PeekDurationUpdate>,
    n: int,
)
    requires
        duration_fits(m, us),
        0 <= n <= us.len(),
    ensures
        duration_fits(m, us.subrange(0, n)),
    decreases us.len() - n,
{
    if n == us.len() {
        assert(us.subrange(0, n) =~= us);
    } else {
        lemma_duration_fits_prefix(m, us, n + 1);
        assert(us.subrange(0, n + 1).drop_last() =~= us.subrange(0, n));
    }
}

fn route_duration(
    hist: &mut DurationHistogram,
    arr: &mut Arrangement,
    us: &Vec<PeekDurationUpdate>,
)
    requires
        old(hist).wf(),
        duration_fits(old(hist)@, us@),
        forall|j: int|
            0 <= j < old(arr).spec_key_cols().len() ==> (#[trigger] old(arr).spec_key_cols()[j])
                < 3,
    ensures
        final(hist).wf(),
        final(hist)@ == duration_counts(old(hist)@, us@),
        final(arr).spec_key_cols() == old(arr).spec_key_cols(),
        arr_updates(*final(arr)) == arr_updates(*old(arr)) + duration_rows(
            old(hist)@,
            us@,
            old(arr).spec_key_cols(),
        ),
{
    let ghost key = arr.spec_key_cols();
    let ghost base = arr_updates(*arr);
    let ghost m0 = hist@;
    proof {
        assert(base + duration_rows(m0, us@.subrange(0, 0), key) =~= base);
    }
    let n = us.len();
    let mut i: usize = 0;
    while i < n
        invariant
            n == us@.len(),
            i <= n,
            hist.wf(),
            hist@ == duration_counts(m0, us@.subrange(0, i as int)),
            duration_fits(m0, us@),
            arr.spec_key_cols() == key,
            forall|j: int| 0 <= j < key.len() ==> (#[trigger] key[j]) < 3,
            arr_updates(*arr) == base + duration_rows(m0, us@.subrange(0, i as int), key),
        decreases n - i,
    {
        let u = us[i];
        proof {
            lemma_duration_fits_prefix(m0, us@, i + 1);
            assert(us@.subrange(0, i + 1).drop_last() =~= us@.subrange(0, i as int));
            assert(us@.subrange(0, i + 1).last() == us@[i as int]);
        }
        let prior = hist.record(u.worker, u.bucket);
        if prior > 0 {
            let row = make_duration_row(u.worker, u.bucket, prior);
            arr.append(row, u.time, -1);
        }
        let row2 = make_duration_row(u.worker, u.bucket, prior + 1);
        arr.append(row2, u.time, 1);
        proof {
            assert(arr_updates(*arr) =~= base + duration_rows(m0, us@.subrange(0, i + 1), key));
        }
        i = i + 1;
    }
    proof {
        assert(us@.subrange(0, us@.len() as int) =~= us@);
    }
}

/// The worker-local pipeline: correlation state, per-kind aggregators,
/// and one indexed relation per active variant.
pub struct Pipeline {
    granularity: u64,
    state: DemuxState,
    rtt_agg: LatestValueAgg<RttSample>,
    consumer_agg: LatestValueAgg<PartitionSample>,
    source_agg: LatestValueAgg<SourceSample>,
    duration_hist: DurationHistogram,
    dataflow_current: Option<Arrangement>,
    dataflow_dependency: Option<Arrangement>,
    frontier_current: Option<Arrangement>,
    kafka_broker_rtt: Option<Arrangement>,
    kafka_consumer_info: Option<Arrangement>,
    peek_current: Option<Arrangement>,
    peek_duration: Option<Arrangement>,
    source_info: Option<Arrangement>,
}

impl Pipeline {
    pub closed spec fn spec_granularity(&self) -> u64 {
        self.granularity
    }

    pub closed spec fn state_model(&self) -> StateModel {
        self.state@
    }

    pub closed spec fn rtt_state(&self) -> Map<AggKeyV, RttSample> {
        self.rtt_agg@
    }

    pub closed spec fn consumer_state(&self) -> Map<AggKeyV, PartitionSample> {
        self.consumer_agg@
    }

    pub closed spec fn source_state(&self) -> Map<AggKeyV, SourceSample> {
        self.source_agg@
    }

    pub closed spec fn duration_state(&self) -> Map<(u64, u64), u64> {
        self.duration_hist@
    }

    /// The arrangement registered for a variant, if the variant is
    /// active.
    pub closed spec fn arrangement_of(&self, v: MaterializedLog) -> Option<Arrangement> {
        match v {
            MaterializedLog::DataflowCurrent => self.dataflow_current,
            MaterializedLog::DataflowDependency => self.dataflow_dependency,
            MaterializedLog::FrontierCurrent => self.frontier_current,
            MaterializedLog::KafkaBrokerRtt => self.kafka_broker_rtt,
            MaterializedLog::KafkaConsumerInfo => self.kafka_consumer_info,
            MaterializedLog::PeekCurrent => self.peek_current,
            MaterializedLog::PeekDuration => self.peek_duration,
            MaterializedLog::SourceInfo => self.source_info,
        }
    }

    pub closed spec fn wf(&self) -> bool {
        &&& self.granularity >= 1
        &&& self.state.wf()
        &&& self.rtt_agg.wf()
        &&& self.consumer_agg.wf()
        &&& self.source_agg.wf()
        &&& self.duration_hist.wf()
        &&& forall|v: MaterializedLog|
            (#[trigger] self.arrangement_of(v)) is Some ==> self.arrangement_of(
                v,
            )->Some_0.spec_key_cols() == index_key(v)
    }

    /// The rows of an active variant's indexed relation, as key/row/diff
    /// triples.
    pub open spec fn relation_of(&self, v: MaterializedLog) -> Seq<RowUpdate>
        recommends
            self.arrangement_of(v) is Some,
    {
        arr_updates(self.arrangement_of(v)->Some_0)
    }
}

fn active_contains(active: &Vec<MaterializedLog>, v: MaterializedLog) -> (r: bool)
    ensures
        r == active@.contains(v),
{
    let n = active.len();
    let mut i: usize = 0;
    while i < n
        invariant
            n == active@.len(),
            i <= n,
            forall|j: int| 0 <= j < i ==> active@[j] != v,
        decreases n - i,
    {
        if active[i] == v {
            assert(active@[i as int] == v);
            return true;
        }
        i = i + 1;
    }
    false
}

fn make_arrangement(active: &Vec<MaterializedLog>, v: MaterializedLog) -> (r: Option<Arrangement>)
    ensures
        (r is Some) <==> active@.contains(v),
        r is Some ==> r->Some_0.spec_key_cols() == index_key(v) && arr_updates(r->Some_0)
            == Seq::<RowUpdate>::empty(),
{
    if active_contains(active, v) {
        Some(Arrangement::new(v.index_by()))
    } else {
        None
    }
}

impl Pipeline {
    /// Builds the pipeline for a configuration: empty correlation state,
    /// empty aggregators, and one empty indexed relation per variant the
    /// configuration marks active. Inactive variants get no relation and
    /// their aggregators will never run.
    pub fn construct(config: &LoggingConfig) -> (p: Pipeline)
        requires
            config.granularity >= 1,
        ensures
            p.wf(),
            p.spec_granularity() == config.granularity,
            p.state_model() == StateModel::empty(),
            p.rtt_state() == Map::<AggKeyV, RttSample>::empty(),
            p.consumer_state() == Map::<AggKeyV, PartitionSample>::empty(),
            p.source_state() == Map::<AggKeyV, SourceSample>::empty(),
            p.duration_state() == Map::<(u64, u64), u64>::empty(),
            forall|v: MaterializedLog|
                ((#[trigger] p.arrangement_of(v)) is Some) <==> config.active@.contains(v),
            forall|v: MaterializedLog|
                (#[trigger] p.arrangement_of(v)) is Some ==> p.relation_of(v)
                    == Seq::<RowUpdate>::empty(),
    {
        let p = Pipeline {
            granularity: config.granularity,
            state: DemuxState::new(),
            rtt_agg: LatestValueAgg::new(),
            consumer_agg: LatestValueAgg::new(),
            source_agg: LatestValueAgg::new(),
            duration_hist: DurationHistogram::new(),
            dataflow_current: make_arrangement(&config.active, MaterializedLog::DataflowCurrent),
            dataflow_dependency: make_arrangement(
                &config.active,
                MaterializedLog::DataflowDependency,
            ),
            frontier_current: make_arrangement(&config.active, MaterializedLog::FrontierCurrent),
            kafka_broker_rtt: make_arrangement(&config.active, MaterializedLog::KafkaBrokerRtt),
            kafka_consumer_info: make_arrangement(
                &config.active,
                MaterializedLog::KafkaConsumerInfo,
            ),
            peek_current: make_arrangement(&config.active, MaterializedLog::PeekCurrent),
            peek_duration: make_arrangement(&config.active, MaterializedLog::PeekDuration),
            source_info: make_arrangement(&config.active, MaterializedLog::SourceInfo),
        };
        proof {
            assert forall|v: MaterializedLog| ((#[trigger] p.arrangement_of(v)) is Some)
                <==> config.active@.contains(v) by {
                match v {
                    MaterializedLog::DataflowCurrent => {},
                    MaterializedLog::DataflowDependency => {},
                    MaterializedLog::FrontierCurrent => {},
                    MaterializedLog::KafkaBrokerRtt => {},
                    MaterializedLog::KafkaConsumerInfo => {},
                    MaterializedLog::PeekCurrent => {},
                    MaterializedLog::PeekDuration => {},
                    MaterializedLog::SourceInfo => {},
                }
            }
            assert forall|v: MaterializedLog| (#[trigger] p.arrangement_of(v)) is Some implies p
                .relation_of(v) == Seq::<RowUpdate>::empty() && p.arrangement_of(
                v,
            )->Some_0.spec_key_cols() == index_key(v) by {
                match v {
                    MaterializedLog::DataflowCurrent => {},
                    MaterializedLog::DataflowDependency => {},
                    MaterializedLog::FrontierCurrent => {},
                    MaterializedLog::KafkaBrokerRtt => {},
                    MaterializedLog::KafkaConsumerInfo => {},
                    MaterializedLog::PeekCurrent => {},
                    MaterializedLog::PeekDuration => {},
                    MaterializedLog::SourceInfo => {},
                }
            }
        }
        p
    }

    /// A read handle on the indexed relation registered for `v`: `Some`
    /// exactly when the configuration marked `v` active.
    pub fn handle(&self, v: MaterializedLog) -> (r: Option<&Arrangement>)
        ensures
            match r {
                Some(a) => self.arrangement_of(v) is Some && *a == self.arrangement_of(v)->Some_0,
                None => self.arrangement_of(v) is None,
            },
    {
        match v {
            MaterializedLog::DataflowCurrent => self.dataflow_current.as_ref(),
            MaterializedLog::DataflowDependency => self.dataflow_dependency.as_ref(),
            MaterializedLog::FrontierCurrent => self.frontier_current.as_ref(),
            MaterializedLog::KafkaBrokerRtt => self.kafka_broker_rtt.as_ref(),
            MaterializedLog::KafkaConsumerInfo => self.kafka_consumer_info.as_ref(),
            MaterializedLog::PeekCurrent => self.peek_current.as_ref(),
            MaterializedLog::PeekDuration => self.peek_duration.as_ref(),
            MaterializedLog::SourceInfo => self.source_info.as_ref(),
        }
    }

    /// Processes one batch of events: demultiplexes them through the
    /// correlation state, then folds each channel into the relations of
    /// the active variants. Returns the warnings the batch raised.
    pub fn process_batch(&mut self, batch: Vec<(u64, u64, MaterializedEvent)>) -> (warnings: Vec<
        Warning,
    >)
        requires
            old(self).wf(),
            batch_admissible(old(self).state_model(), batch@, old(self).spec_granularity()),
            old(self).arrangement_of(MaterializedLog::PeekDuration) is Some ==> duration_fits(
                old(self).duration_state(),
                demux_run(
                    old(self).state_model(),
                    batch@,
                    old(self).spec_granularity(),
                ).1.peek_duration,
            ),
        ensures
            final(self).wf(),
            final(self).spec_granularity() == old(self).spec_granularity(),
            ({
                let pre = *old(self);
                let post = *final(self);
                let run = demux_run(pre.state_model(), batch@, pre.spec_granularity());
                &&& post.state_model() == run.0
                &&& warnings@ == run.1.warnings
                &&& forall|v: MaterializedLog|
                    ((#[trigger] post.arrangement_of(v)) is Some) == (pre.arrangement_of(v) is Some)
                &&& (pre.arrangement_of(MaterializedLog::DataflowCurrent) is Some ==>
                    post.relation_of(MaterializedLog::DataflowCurrent)
                        == pre.relation_of(MaterializedLog::DataflowCurrent)
                        + dataflow_rows(run.1.dataflow, index_key(MaterializedLog::DataflowCurrent)))
                &&& (pre.arrangement_of(MaterializedLog::DataflowDependency) is Some ==>
                    post.relation_of(MaterializedLog::DataflowDependency)
                        == pre.relation_of(MaterializedLog::DataflowDependency)
                        + dependency_rows(run.1.dependency, index_key(MaterializedLog::DataflowDependency)))
                &&& (pre.arrangement_of(MaterializedLog::FrontierCurrent) is Some ==>
                    post.relation_of(MaterializedLog::FrontierCurrent)
                        == pre.relation_of(MaterializedLog::FrontierCurrent)
                        + frontier_rows(run.1.frontier, index_key(MaterializedLog::FrontierCurrent)))
                &&& (pre.arrangement_of(MaterializedLog::PeekCurrent) is Some ==>
                    post.relation_of(MaterializedLog::PeekCurrent)
                        == pre.relation_of(MaterializedLog::PeekCurrent)
                        + peek_rows(run.1.peek, index_key(MaterializedLog::PeekCurrent)))
                &&& (pre.arrangement_of(MaterializedLog::KafkaBrokerRtt) is Some ==> {
                    &&& post.rtt_state() == rtt_map(pre.rtt_state(), run.1.kafka_broker_rtt)
                    &&& post.relation_of(MaterializedLog::KafkaBrokerRtt)
                        == pre.relation_of(MaterializedLog::KafkaBrokerRtt)
                        + rtt_rows(pre.rtt_state(), run.1.kafka_broker_rtt, index_key(MaterializedLog::KafkaBrokerRtt))
                })
                &&& (pre.arrangement_of(MaterializedLog::KafkaBrokerRtt) is None ==>
                    post.rtt_state() == pre.rtt_state())
                &&& (pre.arrangement_of(MaterializedLog::KafkaConsumerInfo) is Some ==> {
                    &&& post.consumer_state() == partition_map(pre.consumer_state(), run.1.kafka_consumer_info)
                    &&& post.relation_of(MaterializedLog::KafkaConsumerInfo)
                        == pre.relation_of(MaterializedLog::KafkaConsumerInfo)
                        + partition_rows(pre.consumer_state(), run.1.kafka_consumer_info, index_key(MaterializedLog::KafkaConsumerInfo))
                })
                &&& (pre.arrangement_of(MaterializedLog::KafkaConsumerInfo) is None ==>
                    post.consumer_state() == pre.consumer_state())
                &&& (pre.arrangement_of(MaterializedLog::SourceInfo) is Some ==> {
                    &&& post.source_state() == source_map(pre.source_state(), run.1.source_info)
                    &&& post.relation_of(MaterializedLog::SourceInfo)
                        == pre.relation_of(MaterializedLog::SourceInfo)
                        + source_rows(pre.source_state(), run.1.source_info, index_key(MaterializedLog::SourceInfo))
                })
                &&& (pre.arrangement_of(MaterializedLog::SourceInfo) is None ==>
                    post.source_state() == pre.source_state())
                &&& (pre.arrangement_of(MaterializedLog::PeekDuration) is Some ==> {
                    &&& post.duration_state() == duration_counts(pre.duration_state(), run.1.peek_duration)
                    &&& post.relation_of(MaterializedLog::PeekDuration)
                        == pre.relation_of(MaterializedLog::PeekDuration)
                        + duration_rows(pre.duration_state(), run.1.peek_duration, index_key(MaterializedLog::PeekDuration))
                })
                &&& (pre.arrangement_of(MaterializedLog::PeekDuration) is None ==>
                    post.duration_state() == pre.duration_state())
            }),
    {
        let g = self.granularity;
        let out = demux::process_batch(&mut self.state, batch, g);
        match &mut self.dataflow_current {
            Some(arr) => {
                proof {
                    lemma_index_key_bounds(MaterializedLog::DataflowCurrent);
                }
                route_dataflow(arr, &out.dataflow);
            },
            None => {},
        }
        match &mut self.dataflow_dependency {
            Some(arr) => {
                proof {
                    lemma_index_key_bounds(MaterializedLog::DataflowDependency);
                }
                route_dependency(arr, &out.dependency);
            },
            None => {},
        }
        match &mut self.frontier_current {
            Some(arr) => {
                proof {
                    lemma_index_key_bounds(MaterializedLog::FrontierCurrent);
                }
                route_frontier(arr, &out.frontier);
            },
            None => {},
        }
        match &mut self.peek_current {
            Some(arr) => {
                proof {
                    lemma_index_key_bounds(MaterializedLog::PeekCurrent);
                }
                route_peek(arr, &out.peek);
            },
            None => {},
        }
        match &mut self.kafka_broker_rtt {
            Some(arr) => {
                proof {
                    lemma_index_key_bounds(MaterializedLog::KafkaBrokerRtt);
                }
                route_rtt(&mut self.rtt_agg, arr, &out.kafka_broker_rtt);
            },
            None => {},
        }
        match &mut self.kafka_consumer_info {
            Some(arr) => {
                proof {
                    lemma_index_key_bounds(MaterializedLog::KafkaConsumerInfo);
                }
                route_partition(&mut self.consumer_agg, arr, &out.kafka_consumer_info);
            },
            None => {},
        }
        match &mut self.source_info {
            Some(arr) => {
                proof {
                    lemma_index_key_bounds(MaterializedLog::SourceInfo);
                }
                route_source(&mut self.source_agg, arr, &out.source_info);
            },
            None => {},
        }
        match &mut self.peek_duration {
            Some(arr) => {
                proof {
                    lemma_index_key_bounds(MaterializedLog::PeekDuration);
                }
                route_duration(&mut self.duration_hist, arr, &out.peek_duration);
            },
            None => {},
        }
        proof {
            assert forall|v: MaterializedLog| ((#[trigger] self.arrangement_of(v)) is Some) == (old(
                self,
            ).arrangement_of(v) is Some) by {
                match v {
                    MaterializedLog::DataflowCurrent => {},
                    MaterializedLog::DataflowDependency => {},
                    MaterializedLog::FrontierCurrent => {},
                    MaterializedLog::KafkaBrokerRtt => {},
                    MaterializedLog::KafkaConsumerInfo => {},
                    MaterializedLog::PeekCurrent => {},
                    MaterializedLog::PeekDuration => {},
                    MaterializedLog::SourceInfo => {},
                }
            }
            assert forall|v: MaterializedLog| (#[trigger] self.arrangement_of(v)) is Some
                implies self.arrangement_of(v)->Some_0.spec_key_cols() == index_key(v) by {
                match v {
                    MaterializedLog::DataflowCurrent => {},
                    MaterializedLog::DataflowDependency => {},
                    MaterializedLog::FrontierCurrent => {},
                    MaterializedLog::KafkaBrokerRtt => {},
                    MaterializedLog::KafkaConsumerInfo => {},
                    MaterializedLog::PeekCurrent => {},
                    MaterializedLog::PeekDuration => {},
                    MaterializedLog::SourceInfo => {},
                }
            }
        }
        out.warnings
    }
}

} // verus!
