//! Per-kind aggregators: latest-value snapshots for the Kafka and source
//! samples, and a monotone occurrence histogram for peek durations.
//!
//! A latest-value aggregator keeps, per natural key, the most recently
//! observed sample; each update retracts the previously displayed row and
//! inserts the new one. The histogram keeps a running count per bucket
//! that only ever grows.

use vstd::prelude::*;
use crate::event::{PartitionSample, RttSample, SourceInstanceId, SourceSample};
use crate::vmap::{AssocMap, MapKey};

verus! {

impl View for RttSample {
    type V = RttSample;

    open spec fn view(&self) -> RttSample {
        *self
    }
}

impl View for PartitionSample {
    type V = PartitionSample;

    open spec fn view(&self) -> PartitionSample {
        *self
    }
}

impl View for SourceSample {
    type V = SourceSample;

    open spec fn view(&self) -> SourceSample {
        *self
    }
}

/// The natural key of a raw sample: a consumer or source name, the source
/// instance, and an optional broker or partition detail.
pub struct AggKey {
    pub name: String,
    pub source: SourceInstanceId,
    pub detail: Option<String>,
}

impl View for AggKey {
    type V = (Seq<char>, SourceInstanceId, Option<Seq<char>>);

    open spec fn view(&self) -> (Seq<char>, SourceInstanceId, Option<Seq<char>>) {
        (
            self.name@,
            self.source,
            match self.detail {
                Some(d) => Some(d@),
                None => None,
            },
        )
    }
}

impl MapKey for AggKey {
    fn key_eq(&self, other: &Self) -> (r: bool)
        ensures
            r == (self@ == other@),
    {
        let names_eq = self.name == other.name;
        let sources_eq = self.source.source_id == other.source.source_id
            && self.source.dataflow_id == other.source.dataflow_id;
        let details_eq = match (&self.detail, &other.detail) {
            (Some(a), Some(b)) => *a == *b,
            (None, None) => true,
            _ => false,
        };
        names_eq && sources_eq && details_eq
    }
}

/// A latest-value snapshot, keyed by [`AggKey`]: the display discipline
/// is retract-the-old, insert-the-new.
pub struct LatestValueAgg<V> {
    current: AssocMap<AggKey, V>,
}

impl<V: View<V = V> + Copy> LatestValueAgg<V> {
    pub closed spec fn wf(&self) -> bool {
        self.current.wf()
    }

    pub closed spec fn view(&self) -> Map<<AggKey as View>::V, V> {
        self.current@
    }

    pub fn new() -> (a: Self)
        ensures
            a.wf(),
            a@ == Map::<<AggKey as View>::V, V>::empty(),
    {
        LatestValueAgg { current: AssocMap::new() }
    }

    /// Records `value` as the current sample for `key` and hands back the
    /// previously displayed sample, if any, so the caller can retract its
    /// row before inserting the new one.
    pub fn update(&mut self, key: AggKey, value: V) -> (prev: Option<V>)
        requires
            old(self).wf(),
        ensures
            final(self).wf(),
            final(self)@ == old(self)@.insert(key@, value@),
            match prev {
                Some(v) => old(self)@.contains_key(key@) && v@ == old(self)@[key@],
                None => !old(self)@.contains_key(key@),
            },
    {
        let prev = self.current.remove(&key);
        self.current.insert(key, value);
        proof {
            assert(self@ =~= old(self)@.insert(key@, value@));
        }
        prev
    }
}

/// One peek-duration bucket, identified by worker and power-of-two
/// bucket.
#[derive(Clone, Copy, Debug, PartialEq, Eq, Structural)]
pub struct HistKey {
    pub worker: u64,
    pub bucket: u64,
}

impl View for HistKey {
    type V = (u64, u64);

    open spec fn view(&self) -> (u64, u64) {
        (self.worker, self.bucket)
    }
}

impl MapKey for HistKey {
    fn key_eq(&self, other: &Self) -> (r: bool)
        ensures
            r == (self@ == other@),
    {
        self.worker == other.worker && self.bucket == other.bucket
    }
}

/// A histogram of peek durations: a running occurrence count per
/// `(worker, bucket)`, never retracted, monotonically increasing.
pub struct DurationHistogram {
    counts: AssocMap<HistKey, u64>,
}

impl DurationHistogram {
    pub closed spec fn wf(&self) -> bool {
        self.counts.wf()
    }

    pub closed spec fn view(&self) -> Map<(u64, u64), u64> {
        self.counts@
    }

    pub fn new() -> (h: DurationHistogram)
        ensures
            h.wf(),
            h@ == Map::<(u64, u64), u64>::empty(),
    {
        DurationHistogram { counts: AssocMap::new() }
    }

    /// Counts one duration sample: the bucket's count grows by one.
    /// Returns the count before the sample (zero for a fresh bucket), so
    /// the caller can retract the previously shown count row.
    pub fn record(&mut self, worker: u64, bucket: u64) -> (prior: u64)
        requires
            old(self).wf(),
            old(self)@.contains_key((worker, bucket)) ==> old(self)@[(worker, bucket)] < u64::MAX,
        ensures
            final(self).wf(),
            prior == if old(self)@.contains_key((worker, bucket)) {
                old(self)@[(worker, bucket)]
            } else {
                0u64
            },
            final(self)@ == old(self)@.insert((worker, bucket), (prior + 1) as u64),
    {
        let key = HistKey { worker, bucket };
        let prev = self.counts.remove(&key);
        match prev {
            Some(c) => {
                self.counts.insert(key, c + 1);
                proof {
                    assert(self@ =~= old(self)@.insert((worker, bucket), (c + 1) as u64));
                }
                c
            },
            None => {
                self.counts.insert(key, 1);
                proof {
                    assert(self@ =~= old(self)@.insert((worker, bucket), 1u64));
                }
                0
            },
        }
    }
}

} // verus!
