//! Per-worker correlation state: which dataflows are alive and which
//! peeks are in flight.

use vstd::prelude::*;
use crate::vmap::{AssocMap, MapKey};

verus! {

/// A dataflow instance, identified per worker.
#[derive(Clone, Copy, Debug, PartialEq, Eq, Structural)]
pub struct DataflowKey {
    pub dataflow: u64,
    pub worker: u64,
}

impl View for DataflowKey {
    type V = (u64, u64);

    open spec fn view(&self) -> (u64, u64) {
        (self.dataflow, self.worker)
    }
}

impl MapKey for DataflowKey {
    fn key_eq(&self, other: &Self) -> (r: bool)
        ensures
            r == (self@ == other@),
    {
        self.dataflow == other.dataflow && self.worker == other.worker
    }
}

/// An outstanding peek, identified by worker and connection.
#[derive(Clone, Copy, Debug, PartialEq, Eq, Structural)]
pub struct PeekKey {
    pub worker: u64,
    pub conn_id: u32,
}

impl View for PeekKey {
    type V = (u64, u32);

    open spec fn view(&self) -> (u64, u32) {
        (self.worker, self.conn_id)
    }
}

impl MapKey for PeekKey {
    fn key_eq(&self, other: &Self) -> (r: bool)
        ensures
            r == (self@ == other@),
    {
        self.worker == other.worker && self.conn_id == other.conn_id
    }
}

/// A dependency edge stored under an active dataflow.
#[derive(Clone, Copy, Debug, PartialEq, Eq, Structural)]
pub struct Dependency {
    pub source: u64,
    pub worker: u64,
}

/// The demultiplexer's view: the active dataflows with their dependency
/// edges, and the raw install time of each in-flight peek.
pub struct StateModel {
    pub dataflows: Map<(u64, u64), Seq<Dependency>>,
    pub peeks: Map<(u64, u32), u64>,
}

impl StateModel {
    pub open spec fn empty() -> StateModel {
        StateModel { dataflows: Map::empty(), peeks: Map::empty() }
    }
}

/// The demultiplexer's correlation state.
pub struct DemuxState {
    pub active_dataflows: AssocMap<DataflowKey, Vec<Dependency>>,
    pub peek_stash: AssocMap<PeekKey, u64>,
}

impl View for DemuxState {
    type V = StateModel;

    open spec fn view(&self) -> StateModel {
        StateModel { dataflows: self.active_dataflows@, peeks: self.peek_stash@ }
    }
}

impl DemuxState {
    pub open spec fn wf(&self) -> bool {
        self.active_dataflows.wf() && self.peek_stash.wf()
    }

    /// Fresh state: no dataflow is active, no peek is in flight.
    pub fn new() -> (s: DemuxState)
        ensures
            s.wf(),
            s@ == StateModel::empty(),
    {
        let s = DemuxState { active_dataflows: AssocMap::new(), peek_stash: AssocMap::new() };
        proof {
            assert(s@.dataflows =~= StateModel::empty().dataflows);
            assert(s@.peeks =~= StateModel::empty().peeks);
        }
        s
    }
}

} // verus!
