//! Relation materialization: rows of typed datums, projection onto a
//! variant's declared index key, and the incrementally maintained indexed
//! structure each active variant is stored in.

use vstd::prelude::*;

verus! {

/// One column value of an output row.
#[derive(Debug, PartialEq, Eq)]
pub enum Datum {
    Int64(i64),
    Uint64(u64),
    Str(String),
    Null,
}

impl Clone for Datum {
    fn clone(&self) -> (r: Datum)
        ensures
            r == *self,
    {
        match self {
            Datum::Int64(x) => Datum::Int64(*x),
            Datum::Uint64(x) => Datum::Uint64(*x),
            Datum::Str(s) => Datum::Str(s.clone()),
            Datum::Null => Datum::Null,
        }
    }
}

/// One output row.
pub type Row = Vec<Datum>;

/// An update of an indexed relation: the row's projection onto the index
/// key, the row itself, the bucketed time of the update, and its signed
/// multiplicity.
pub type RowUpdate = (Seq<Datum>, Seq<Datum>, u64, i64);

/// The projection of a row onto a set of key columns.
pub open spec fn project(row: Seq<Datum>, key: Seq<usize>) -> Seq<Datum> {
    Seq::new(key.len(), |i: int| row[key[i] as int])
}

/// The one of eight introspection relations an output belongs to.
#[derive(Clone, Copy, Debug, PartialEq, Eq, Structural)]
pub enum MaterializedLog {
    DataflowCurrent,
    DataflowDependency,
    FrontierCurrent,
    KafkaBrokerRtt,
    KafkaConsumerInfo,
    PeekCurrent,
    PeekDuration,
    SourceInfo,
}

/// The number of columns in a variant's rows.
pub open spec fn arity(v: MaterializedLog) -> int {
    match v {
        MaterializedLog::DataflowCurrent => 2,
        MaterializedLog::DataflowDependency => 3,
        MaterializedLog::FrontierCurrent => 3,
        MaterializedLog::KafkaBrokerRtt => 16,
        MaterializedLog::KafkaConsumerInfo => 14,
        MaterializedLog::PeekCurrent => 4,
        MaterializedLog::PeekDuration => 3,
        MaterializedLog::SourceInfo => 6,
    }
}

/// The columns a variant's relation is indexed by.
pub open spec fn index_key(v: MaterializedLog) -> Seq<usize> {
    match v {
        MaterializedLog::DataflowCurrent => seq![0usize, 1],
        MaterializedLog::DataflowDependency => seq![0usize, 1, 2],
        MaterializedLog::FrontierCurrent => seq![0usize, 1],
        MaterializedLog::KafkaBrokerRtt => seq![0usize, 1, 2, 3],
        MaterializedLog::KafkaConsumerInfo => seq![0usize, 1, 2, 3],
        MaterializedLog::PeekCurrent => seq![0usize, 1],
        MaterializedLog::PeekDuration => seq![0usize, 1],
        MaterializedLog::SourceInfo => seq![0usize, 1, 2, 3],
    }
}

/// Every index column of a variant lies inside its rows.
pub proof fn lemma_index_key_bounds(v: MaterializedLog)
    ensures
        forall|j: int|
            0 <= j < index_key(v).len() ==> (#[trigger] index_key(v)[j]) < arity(v),
{
    assert forall|j: int| 0 <= j < index_key(v).len() implies (#[trigger] index_key(v)[j])
        < arity(v) by {
        if j == 0 {
        } else if j == 1 {
        } else if j == 2 {
        } else {
            assert(j == 3);
        }
    }
}

impl MaterializedLog {
    /// The stable identifier under which the relation is registered.
    pub fn name(&self) -> (r: &'static str)
        ensures
            r@ == match *self {
                MaterializedLog::DataflowCurrent => "dataflow-current"@,
                MaterializedLog::DataflowDependency => "dataflow-dependency"@,
                MaterializedLog::FrontierCurrent => "frontier-current"@,
                MaterializedLog::KafkaBrokerRtt => "kafka-broker-rtt"@,
                MaterializedLog::KafkaConsumerInfo => "kafka-consumer-info"@,
                MaterializedLog::PeekCurrent => "peek-current"@,
                MaterializedLog::PeekDuration => "peek-duration"@,
                MaterializedLog::SourceInfo => "source-info"@,
            },
    {
        match self {
            MaterializedLog::DataflowCurrent => "dataflow-current",
            MaterializedLog::DataflowDependency => "dataflow-dependency",
            MaterializedLog::FrontierCurrent => "frontier-current",
            MaterializedLog::KafkaBrokerRtt => "kafka-broker-rtt",
            MaterializedLog::KafkaConsumerInfo => "kafka-consumer-info",
            MaterializedLog::PeekCurrent => "peek-current",
            MaterializedLog::PeekDuration => "peek-duration",
            MaterializedLog::SourceInfo => "source-info",
        }
    }

    /// The key columns the variant's relation is indexed by.
    pub fn index_by(&self) -> (r: Vec<usize>)
        ensures
            r@ == index_key(*self),
    {
        let mut r: Vec<usize> = Vec::new();
        r.push(0);
        r.push(1);
        match self {
            MaterializedLog::DataflowCurrent => {},
            MaterializedLog::DataflowDependency => {
                r.push(2);
            },
            MaterializedLog::FrontierCurrent => {},
            MaterializedLog::KafkaBrokerRtt => {
                r.push(2);
                r.push(3);
            },
            MaterializedLog::KafkaConsumerInfo => {
                r.push(2);
                r.push(3);
            },
            MaterializedLog::PeekCurrent => {},
            MaterializedLog::PeekDuration => {},
            MaterializedLog::SourceInfo => {
                r.push(2);
                r.push(3);
            },
        }
        proof {
            assert(r@ =~= index_key(*self));
        }
        r
    }
}

/// Whether two datums display the same value.
pub open spec fn datum_matches(a: Datum, b: Datum) -> bool {
    match (a, b) {
        (Datum::Str(x), Datum::Str(y)) => x@ == y@,
        _ => a == b,
    }
}

/// Whether two rows display the same values, column by column.
pub open spec fn row_matches(a: Seq<Datum>, b: Seq<Datum>) -> bool {
    a.len() == b.len() && forall|i: int| 0 <= i < a.len() ==> datum_matches(a[i], #[trigger] b[i])
}

/// The updates stored under `key` and visible as of `as_of`: every row
/// whose key projection matches, with its multiplicity.
pub open spec fn rows_as_of(updates: Seq<RowUpdate>, key: Seq<Datum>, as_of: u64) -> Seq<
    (Seq<Datum>, i64),
>
    decreases updates.len(),
{
    if updates.len() == 0 {
        Seq::empty()
    } else {
        let rest = rows_as_of(updates.drop_last(), key, as_of);
        let u = updates.last();
        if row_matches(u.0, key) && u.2 <= as_of {
            rest.push((u.1, u.3))
        } else {
            rest
        }
    }
}

fn datum_eq(a: &Datum, b: &Datum) -> (r: bool)
    ensures
        r == datum_matches(*a, *b),
{
    match (a, b) {
        (Datum::Int64(x), Datum::Int64(y)) => *x == *y,
        (Datum::Uint64(x), Datum::Uint64(y)) => *x == *y,
        (Datum::Str(x), Datum::Str(y)) => *x == *y,
        (Datum::Null, Datum::Null) => true,
        _ => false,
    }
}

fn row_eq(a: &Row, b: &Row) -> (r: bool)
    ensures
        r == row_matches(a@, b@),
{
    if a.len() != b.len() {
        return false;
    }
    let n = a.len();
    let mut i: usize = 0;
    while i < n
        invariant
            n == a@.len(),
            n == b@.len(),
            i <= n,
            forall|j: int| 0 <= j < i ==> datum_matches(a@[j], #[trigger] b@[j]),
        decreases n - i,
    {
        if !datum_eq(&a[i], &b[i]) {
            return false;
        }
        i = i + 1;
    }
    true
}

/// An incrementally maintained indexed relation: each appended row is
/// stored together with its projection onto the relation's key columns.
pub struct Arrangement {
    key_cols: Vec<usize>,
    updates: Vec<(Row, Row, u64, i64)>,
}

/// The update log of an arrangement: key projection, row, time,
/// multiplicity.
pub closed spec fn arr_updates(a: Arrangement) -> Seq<RowUpdate> {
    Seq::new(
        a.updates@.len(),
        |i: int| (a.updates@[i].0@, a.updates@[i].1@, a.updates@[i].2, a.updates@[i].3),
    )
}

impl Arrangement {
    /// The columns this relation is indexed by.
    pub closed spec fn spec_key_cols(&self) -> Seq<usize> {
        self.key_cols@
    }

    pub fn new(key_cols: Vec<usize>) -> (a: Arrangement)
        ensures
            a.spec_key_cols() == key_cols@,
            arr_updates(a) == Seq::<RowUpdate>::empty(),
    {
        let a = Arrangement { key_cols, updates: Vec::new() };
        proof {
            assert(arr_updates(a) =~= Seq::<RowUpdate>::empty());
        }
        a
    }

    pub fn key_cols(&self) -> (r: &Vec<usize>)
        ensures
            r@ == self.spec_key_cols(),
    {
        &self.key_cols
    }

    /// The raw update log, for read-only consumers.
    pub fn updates(&self) -> (r: &Vec<(Row, Row, u64, i64)>)
        ensures
            r@.len() == arr_updates(*self).len(),
            forall|i: int|
                0 <= i < r@.len() ==> (#[trigger] r@[i]).0@ == arr_updates(*self)[i].0 && r@[i].1@
                    == arr_updates(*self)[i].1 && r@[i].2 == arr_updates(*self)[i].2 && r@[i].3
                    == arr_updates(*self)[i].3,
    {
        &self.updates
    }

    /// Point lookup: the rows stored under `key`, as of time `as_of`,
    /// each with its signed multiplicity.
    pub fn read_at(&self, key: &Row, as_of: u64) -> (r: Vec<(Row, i64)>)
        ensures
            ({
                let found = rows_as_of(arr_updates(*self), key@, as_of);
                r@.len() == found.len() && forall|i: int|
                    0 <= i < r@.len() ==> (#[trigger] r@[i]).0@ == found[i].0 && r@[i].1
                        == found[i].1
            }),
    {
        let mut r: Vec<(Row, i64)> = Vec::new();
        let n = self.updates.len();
        let mut i: usize = 0;
        while i < n
            invariant
                n == self.updates@.len(),
                i <= n,
                ({
                    let found = rows_as_of(
                        arr_updates(*self).subrange(0, i as int),
                        key@,
                        as_of,
                    );
                    r@.len() == found.len() && forall|j: int|
                        0 <= j < r@.len() ==> (#[trigger] r@[j]).0@ == found[j].0 && r@[j].1
                            == found[j].1
                }),
            decreases n - i,
        {
            proof {
                assert(arr_updates(*self).subrange(0, i + 1).drop_last() =~= arr_updates(
                    *self,
                ).subrange(0, i as int));
                assert(arr_updates(*self).subrange(0, i + 1).last() == arr_updates(*self)[i as int]);
            }
            let entry = &self.updates[i];
            if entry.2 <= as_of && row_eq(&entry.0, key) {
                let row = entry.1.clone();
                proof {
                    assert(row@ =~= self.updates@[i as int].1@);
                }
                r.push((row, entry.3));
            }
            i = i + 1;
        }
        proof {
            assert(arr_updates(*self).subrange(0, arr_updates(*self).len() as int) =~= arr_updates(
                *self,
            ));
        }
        r
    }

    /// Appends one row at its bucketed time with its multiplicity, keyed
    /// by the row's projection onto the relation's key columns.
    pub fn append(&mut self, row: Row, time: u64, diff: i64)
        requires
            forall|j: int|
                0 <= j < old(self).spec_key_cols().len() ==> (#[trigger] old(
                    self,
                ).spec_key_cols()[j]) < row@.len(),
        ensures
            final(self).spec_key_cols() == old(self).spec_key_cols(),
            arr_updates(*final(self)) == arr_updates(*old(self)).push(
                (project(row@, old(self).spec_key_cols()), row@, time, diff),
            ),
    {
        let mut key: Row = Vec::new();
        let n = self.key_cols.len();
        let mut j: usize = 0;
        while j < n
            invariant
                n == self.key_cols@.len(),
                j <= n,
                forall|i: int|
                    0 <= i < n ==> (#[trigger] self.key_cols@[i]) < row@.len(),
                key@.len() == j,
                forall|i: int|
                    0 <= i < j ==> #[trigger] key@[i] == row@[self.key_cols@[i] as int],
            decreases n - j,
        {
            let c = self.key_cols[j];
            let d = row[c].clone();
            key.push(d);
            j = j + 1;
        }
        proof {
            assert(key@ =~= project(row@, self.key_cols@));
        }
        let ghost grow = row@;
        let ghost gkey = key@;
        self.updates.push((key, row, time, diff));
        proof {
            assert(arr_updates(*self) =~= arr_updates(*old(self)).push(
                (project(grow, old(self).spec_key_cols()), grow, time, diff),
            ));
        }
    }
}

} // verus!
