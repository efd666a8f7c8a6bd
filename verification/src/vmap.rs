//! A small association map with a `Map` view, used for the pipeline's
//! correlation state and aggregator state.
//!
//! Entries are kept in a vector with pairwise-distinct keys; the view is
//! the finite `Map` from key views to value views.

use vstd::prelude::*;

verus! {

/// Keys of an [`AssocMap`]: types whose equality can be decided in
/// executable code, agreeing with equality of their views.
pub trait MapKey: View + Sized {
    fn key_eq(&self, other: &Self) -> (r: bool)
        ensures
            r == (self@ == other@),
    ;
}

/// A finite map from `K` to `V`, stored as a vector of entries with
/// pairwise-distinct keys.
pub struct AssocMap<K, V> {
    entries: Vec<(K, V)>,
}

/// The `Map` denoted by a sequence of key-value entries; later entries win.
spec fn kv_map<K: View, V: View>(s: Seq<(K, V)>) -> Map<<K as View>::V, <V as View>::V>
    decreases s.len(),
{
    if s.len() == 0 {
        Map::empty()
    } else {
        kv_map(s.drop_last()).insert(s.last().0@, s.last().1@)
    }
}

spec fn keys_distinct<K: View, V>(s: Seq<(K, V)>) -> bool {
    forall|i: int, j: int|
        0 <= i < j < s.len() ==> #[trigger] s[i].0@ != #[trigger] s[j].0@
}

proof fn lemma_kv_map_dom<K: View, V: View>(s: Seq<(K, V)>, k: <K as View>::V)
    ensures
        kv_map(s).contains_key(k) <==> exists|i: int| 0 <= i < s.len() && #[trigger] s[i].0@ == k,
    decreases s.len(),
{
    if s.len() > 0 {
        lemma_kv_map_dom::<K, V>(s.drop_last(), k);
        if s.last().0@ == k {
            assert(s[s.len() - 1].0@ == k);
        } else {
            if kv_map(s).contains_key(k) {
                let i = choose|i: int|
                    0 <= i < s.drop_last().len() && #[trigger] s.drop_last()[i].0@ == k;
                assert(s.drop_last()[i] == s[i]);
            }
            if exists|i: int| 0 <= i < s.len() && #[trigger] s[i].0@ == k {
                let i = choose|i: int| 0 <= i < s.len() && #[trigger] s[i].0@ == k;
                assert(i < s.len() - 1);
                assert(s.drop_last()[i] == s[i]);
            }
        }
    }
}

proof fn lemma_keys_distinct_drop_last<K: View, V: View>(s: Seq<(K, V)>)
    requires
        keys_distinct(s),
        s.len() > 0,
    ensures
        keys_distinct(s.drop_last()),
{
    assert forall|i: int, j: int| 0 <= i < j < s.drop_last().len() implies #[trigger] s.drop_last()[i].0@
        != #[trigger] s.drop_last()[j].0@ by {
        assert(s.drop_last()[i] == s[i]);
        assert(s.drop_last()[j] == s[j]);
    }
}

proof fn lemma_kv_map_get<K: View, V: View>(s: Seq<(K, V)>, i: int)
    requires
        keys_distinct(s),
        0 <= i < s.len(),
    ensures
        kv_map(s).contains_key(s[i].0@),
        kv_map(s)[s[i].0@] == s[i].1@,
    decreases s.len(),
{
    if i < s.len() - 1 {
        lemma_keys_distinct_drop_last::<K, V>(s);
        lemma_kv_map_get::<K, V>(s.drop_last(), i);
        assert(s.drop_last()[i] == s[i]);
        assert(s[i].0@ != s[s.len() - 1].0@);
    }
}

proof fn lemma_keys_distinct_remove<K: View, V: View>(s: Seq<(K, V)>, i: int)
    requires
        keys_distinct(s),
        0 <= i < s.len(),
    ensures
        keys_distinct(s.remove(i)),
{
    assert forall|a: int, b: int| 0 <= a < b < s.remove(i).len() implies #[trigger] s.remove(i)[a].0@
        != #[trigger] s.remove(i)[b].0@ by {
        if a < i {
            assert(s.remove(i)[a] == s[a]);
        } else {
            assert(s.remove(i)[a] == s[a + 1]);
        }
        if b < i {
            assert(s.remove(i)[b] == s[b]);
        } else {
            assert(s.remove(i)[b] == s[b + 1]);
        }
    }
}

proof fn lemma_kv_map_remove<K: View, V: View>(s: Seq<(K, V)>, i: int)
    requires
        keys_distinct(s),
        0 <= i < s.len(),
    ensures
        kv_map(s.remove(i)) == kv_map(s).remove(s[i].0@),
    decreases s.len(),
{
    let k = s[i].0@;
    if i == s.len() - 1 {
        assert(s.remove(i) =~= s.drop_last());
        lemma_kv_map_dom::<K, V>(s.drop_last(), k);
        assert forall|j: int| 0 <= j < s.drop_last().len() implies #[trigger] s.drop_last()[j].0@
            != k by {
            assert(s.drop_last()[j] == s[j]);
        }
        assert(!kv_map(s.drop_last()).contains_key(k));
        assert(kv_map(s).remove(k) =~= kv_map(s.drop_last()));
    } else {
        let sd = s.drop_last();
        lemma_keys_distinct_drop_last::<K, V>(s);
        lemma_kv_map_remove::<K, V>(sd, i);
        assert(sd[i] == s[i]);
        assert(s.remove(i).drop_last() =~= sd.remove(i));
        assert(s.remove(i).last() == s.last());
        assert(s.last().0@ != k);
        assert(kv_map(s.remove(i)) == kv_map(sd.remove(i)).insert(s.last().0@, s.last().1@));
        assert(kv_map(sd).remove(k).insert(s.last().0@, s.last().1@) =~= kv_map(sd).insert(
            s.last().0@,
            s.last().1@,
        ).remove(k));
    }
}

impl<K: MapKey, V: View> View for AssocMap<K, V> {
    type V = Map<<K as View>::V, <V as View>::V>;

    closed spec fn view(&self) -> Map<<K as View>::V, <V as View>::V> {
        kv_map(self.entries@)
    }
}

impl<K: MapKey, V: View> AssocMap<K, V> {
    /// Pairwise-distinct keys; established by `new` and preserved by every
    /// method.
    pub closed spec fn wf(&self) -> bool {
        keys_distinct(self.entries@)
    }

    pub fn new() -> (m: Self)
        ensures
            m.wf(),
            m@ == Map::<<K as View>::V, <V as View>::V>::empty(),
    {
        AssocMap { entries: Vec::new() }
    }

    /// The index of the entry holding `key`, if any.
    fn find(&self, key: &K) -> (r: Option<usize>)
        ensures
            match r {
                Some(i) => i < self.entries@.len() && self.entries@[i as int].0@ == key@,
                None => forall|i: int|
                    0 <= i < self.entries@.len() ==> #[trigger] self.entries@[i].0@ != key@,
            },
    {
        let n = self.entries.len();
        let mut i: usize = 0;
        while i < n
            invariant
                n == self.entries@.len(),
                i <= n,
                forall|j: int| 0 <= j < i ==> #[trigger] self.entries@[j].0@ != key@,
            decreases n - i,
        {
            if self.entries[i].0.key_eq(key) {
                return Some(i);
            }
            i = i + 1;
        }
        None
    }

    pub fn contains_key(&self, key: &K) -> (r: bool)
        requires
            self.wf(),
        ensures
            r == self@.contains_key(key@),
    {
        proof {
            lemma_kv_map_dom::<K, V>(self.entries@, key@);
        }
        match self.find(key) {
            Some(i) => {
                assert(self.entries@[i as int].0@ == key@);
                true
            },
            None => false,
        }
    }

    pub fn get(&self, key: &K) -> (r: Option<&V>)
        requires
            self.wf(),
        ensures
            match r {
                Some(v) => self@.contains_key(key@) && v@ == self@[key@],
                None => !self@.contains_key(key@),
            },
    {
        match self.find(key) {
            Some(i) => {
                proof {
                    lemma_kv_map_get::<K, V>(self.entries@, i as int);
                }
                Some(&self.entries[i].1)
            },
            None => {
                proof {
                    lemma_kv_map_dom::<K, V>(self.entries@, key@);
                }
                None
            },
        }
    }

    pub fn remove(&mut self, key: &K) -> (r: Option<V>)
        requires
            old(self).wf(),
        ensures
            final(self).wf(),
            final(self)@ == old(self)@.remove(key@),
            match r {
                Some(v) => old(self)@.contains_key(key@) && v@ == old(self)@[key@],
                None => !old(self)@.contains_key(key@) && final(self)@ == old(self)@,
            },
    {
        match self.find(key) {
            Some(i) => {
                proof {
                    lemma_kv_map_get::<K, V>(self.entries@, i as int);
                    lemma_kv_map_remove::<K, V>(self.entries@, i as int);
                    lemma_keys_distinct_remove::<K, V>(self.entries@, i as int);
                }
                let entry = self.entries.remove(i);
                Some(entry.1)
            },
            None => {
                proof {
                    lemma_kv_map_dom::<K, V>(self.entries@, key@);
                    assert(kv_map(self.entries@).remove(key@) =~= kv_map(self.entries@));
                }
                None
            },
        }
    }

    pub fn insert(&mut self, key: K, value: V)
        requires
            old(self).wf(),
        ensures
            final(self).wf(),
            final(self)@ == old(self)@.insert(key@, value@),
    {
        let _prev = self.remove(&key);
        let ghost mid = self.entries@;
        proof {
            lemma_kv_map_dom::<K, V>(mid, key@);
        }
        self.entries.push((key, value));
        proof {
            assert(self.entries@.drop_last() =~= mid);
            assert forall|i: int, j: int| 0 <= i < j < self.entries@.len() implies #[trigger] self.entries@[i].0@
                != #[trigger] self.entries@[j].0@ by {
                if j < self.entries@.len() - 1 {
                    assert(self.entries@[i] == mid[i]);
                    assert(self.entries@[j] == mid[j]);
                } else {
                    assert(self.entries@[i] == mid[i]);
                }
            }
            assert(kv_map(mid).insert(key@, value@) =~= kv_map(mid.push((key, value))));
            assert(old(self)@.remove(key@).insert(key@, value@) =~= old(self)@.insert(
                key@,
                value@,
            ));
        }
    }
}

} // verus!
