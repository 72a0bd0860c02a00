//! Per-entity display storage: a small id-keyed map used by the render
//! layer for the screen positions and scales of displayed entities, and
//! read by the intent layer for hit-testing.

use vstd::prelude::*;
use crate::model::Id;

verus! {

/// An id-keyed store with insertion-order iteration, viewed as a map.
pub struct Storage<T> {
    entries: Vec<(Id, T)>,
}

impl<T> View for Storage<T> {
    type V = Map<Id, T>;

    closed spec fn view(&self) -> Map<Id, T> {
        pairs_map(self.entries@)
    }
}

/// The map held by a sequence of key-value pairs (later pairs win).
pub open spec fn pairs_map<T>(s: Seq<(Id, T)>) -> Map<Id, T>
    decreases s.len(),
{
    if s.len() == 0 {
        Map::empty()
    } else {
        pairs_map(s.drop_last()).insert(s.last().0, s.last().1)
    }
}

/// A key is in the map iff some pair holds it.
proof fn lemma_pairs_map_domain<T>(s: Seq<(Id, T)>, id: Id)
    ensures
        pairs_map(s).contains_key(id)
            == (exists|i: int| 0 <= i < s.len() && (#[trigger] s[i]).0 == id),
    decreases s.len(),
{
    if s.len() > 0 {
        lemma_pairs_map_domain(s.drop_last(), id);
        if s.last().0 != id && pairs_map(s).contains_key(id) {
            let i = choose|i: int| 0 <= i < s.len() - 1 && (#[trigger] s.drop_last()[i]).0 == id;
            assert(s[i].0 == id);
        }
        if exists|i: int| 0 <= i < s.len() && (#[trigger] s[i]).0 == id {
            let i = choose|i: int| 0 <= i < s.len() && (#[trigger] s[i]).0 == id;
            if i < s.len() - 1 {
                assert(s.drop_last()[i].0 == id);
            }
        }
    }
}

/// With unique keys, overwriting the value at one index turns the map's
/// entry for that key over, whatever the new value is.
proof fn lemma_pairs_map_update<T>(s: Seq<(Id, T)>, i: int)
    requires
        forall|j: int, k: int| 0 <= j < k < s.len() ==> (#[trigger] s[j]).0 != (#[trigger] s[k]).0,
        0 <= i < s.len(),
    ensures
        forall|x: T| #[trigger] pairs_map(s.update(i, (s[i].0, x)))
            == pairs_map(s).insert(s[i].0, x),
        forall|x: T, j: int, k: int| 0 <= j < k < s.len()
            ==> (#[trigger] s.update(i, (s[i].0, x))[j]).0
                != (#[trigger] s.update(i, (s[i].0, x))[k]).0,
{
    let id = s[i].0;
    assert forall|x: T| #[trigger] pairs_map(s.update(i, (id, x)))
        == pairs_map(s).insert(id, x) by {
        let s2 = s.update(i, (id, x));
        assert(forall|j: int| 0 <= j < s2.len() ==> (#[trigger] s2[j]).0 == s[j].0);
        assert(forall|j: int| 0 <= j < s.len() ==> (#[trigger] s[j]).0 == s2[j].0);
        assert forall|j: int, k: int| 0 <= j < k < s2.len() implies
            (#[trigger] s2[j]).0 != (#[trigger] s2[k]).0 by {
            assert(s2[j].0 == s[j].0);
            assert(s2[k].0 == s[k].0);
        }
        assert forall|k: Id|
            #[trigger] pairs_map(s2).contains_key(k) == pairs_map(s).insert(id, x).contains_key(k)
            && (pairs_map(s2).contains_key(k)
                ==> pairs_map(s2)[k] == pairs_map(s).insert(id, x)[k]) by {
            lemma_pairs_map_domain(s2, k);
            lemma_pairs_map_domain(s, k);
            if k == id {
                lemma_pairs_map_at(s2, i);
            } else if pairs_map(s2).contains_key(k) {
                let j = choose|j: int| 0 <= j < s2.len() && (#[trigger] s2[j]).0 == k;
                lemma_pairs_map_at(s2, j);
                lemma_pairs_map_at(s, j);
            }
        }
        assert(pairs_map(s2) =~= pairs_map(s).insert(id, x));
    }
}

/// With unique keys, the pair at any index gives the map's value there.
proof fn lemma_pairs_map_at<T>(s: Seq<(Id, T)>, i: int)
    requires
        forall|j: int, k: int| 0 <= j < k < s.len() ==> (#[trigger] s[j]).0 != (#[trigger] s[k]).0,
        0 <= i < s.len(),
    ensures
        pairs_map(s).contains_key(s[i].0),
        pairs_map(s)[s[i].0] == s[i].1,
    decreases s.len(),
{
    lemma_pairs_map_domain(s, s[i].0);
    if i < s.len() - 1 {
        lemma_pairs_map_at(s.drop_last(), i);
        assert(s.drop_last()[i] == s[i]);
    }
}

impl<T> Storage<T> {
    /// No two entries share a key.
    pub closed spec fn wf(&self) -> bool {
        forall|j: int, k: int| 0 <= j < k < self.entries@.len()
            ==> (#[trigger] self.entries@[j]).0 != (#[trigger] self.entries@[k]).0
    }

    pub fn new() -> (r: Self)
        ensures
            r@ == Map::<Id, T>::empty(),
            r.wf(),
    {
        Storage { entries: Vec::new() }
    }

    /// Find the index of the entry with this id.
    fn index_of(&self, id: Id) -> (r: Option<usize>)
        ensures
            match r {
                Some(i) => i < self.entries@.len() && self.entries@[i as int].0 == id
                    && self@.contains_key(id),
                None => !self@.contains_key(id),
            },
    {
        let n = self.entries.len();
        let mut i: usize = 0;
        while i < n
            invariant
                i <= n,
                n == self.entries@.len(),
                forall|j: int| 0 <= j < i ==> (#[trigger] self.entries@[j]).0 != id,
            decreases n - i,
        {
            if self.entries[i].0 == id {
                proof {
                    lemma_pairs_map_domain(self.entries@, id);
                }
                return Some(i);
            }
            i = i + 1;
        }
        proof {
            lemma_pairs_map_domain(self.entries@, id);
        }
        None
    }

    /// Borrow the value stored for this id, if any.
    pub fn get(&self, id: Id) -> (r: Option<&T>)
        requires
            self.wf(),
        ensures
            match r {
                Some(v) => self@.contains_key(id) && *v == self@[id],
                None => !self@.contains_key(id),
            },
    {
        match self.index_of(id) {
            Some(i) => {
                proof {
                    lemma_pairs_map_at(self.entries@, i as int);
                }
                Some(&self.entries[i].1)
            }
            None => None,
        }
    }

    /// Borrow the value stored for this id mutably, if any; the map
    /// afterwards holds whatever the caller leaves behind the borrow.
    pub fn get_mut(&mut self, id: Id) -> (r: Option<&mut T>)
        requires
            old(self).wf(),
        ensures
            final(self).wf(),
            match r {
                Some(v) => old(self)@.contains_key(id) && *v == old(self)@[id]
                    && final(self)@ == old(self)@.insert(id, *final(v)),
                None => !old(self)@.contains_key(id) && final(self)@ == old(self)@,
            },
    {
        match self.index_of(id) {
            Some(i) => {
                proof {
                    lemma_pairs_map_at(self.entries@, i as int);
                    lemma_pairs_map_update(self.entries@, i as int);
                }
                let entry = &mut self.entries[i];
                Some(&mut entry.1)
            }
            None => None,
        }
    }

    /// Store a value for this id, replacing any previous one.
    pub fn insert(&mut self, id: Id, value: T)
        requires
            old(self).wf(),
        ensures
            final(self)@ == old(self)@.insert(id, value),
            final(self).wf(),
    {
        let ghost os = self.entries@;
        match self.index_of(id) {
            Some(i) => {
                self.entries.remove(i);
                self.entries.insert(i, (id, value));
                proof {
                    let s2 = self.entries@;
                    assert(s2 =~= os.update(i as int, (id, value)));
                    assert(forall|j: int| 0 <= j < s2.len()
                        ==> (#[trigger] s2[j]).0 == os[j].0);
                    assert(forall|j: int| 0 <= j < os.len()
                        ==> (#[trigger] os[j]).0 == s2[j].0);
                    assert forall|j: int, k2: int| 0 <= j < k2 < s2.len() implies
                        (#[trigger] s2[j]).0 != (#[trigger] s2[k2]).0 by {
                        assert(s2[j].0 == os[j].0);
                        assert(s2[k2].0 == os[k2].0);
                    }
                    assert forall|k: Id|
                        #[trigger] pairs_map(s2).contains_key(k)
                            == old(self)@.insert(id, value).contains_key(k)
                        && (pairs_map(s2).contains_key(k)
                            ==> pairs_map(s2)[k] == old(self)@.insert(id, value)[k]) by {
                        lemma_pairs_map_domain(s2, k);
                        lemma_pairs_map_domain(os, k);
                        if k == id {
                            lemma_pairs_map_at(s2, i as int);
                        } else if pairs_map(s2).contains_key(k) {
                            let j = choose|j: int| 0 <= j < s2.len() && (#[trigger] s2[j]).0 == k;
                            lemma_pairs_map_at(s2, j);
                            lemma_pairs_map_at(os, j);
                        }
                    }
                    assert(pairs_map(s2) =~= old(self)@.insert(id, value));
                }
            }
            None => {
                self.entries.push((id, value));
                proof {
                    lemma_pairs_map_domain(os, id);
                    assert(self.entries@.drop_last() =~= os);
                    assert(forall|j: int| 0 <= j < os.len()
                        ==> (#[trigger] self.entries@[j]) == os[j]);
                    assert(self.entries@[self.entries@.len() - 1].0 == id);
                }
            }
        }
    }

    /// Store a value for this id; a synonym of [`Storage::insert`].
    pub fn set(&mut self, id: Id, value: T)
        requires
            old(self).wf(),
        ensures
            final(self)@ == old(self)@.insert(id, value),
            final(self).wf(),
    {
        self.insert(id, value);
    }
}

impl<T: Clone> Storage<T> {
    /// Borrow the value stored for this id, inserting the given default
    /// first when the id is absent.
    pub fn get_or_default(&mut self, id: Id, default: T) -> (r: &T)
        requires
            old(self).wf(),
        ensures
            final(self).wf(),
            !old(self)@.contains_key(id) ==> final(self)@ == old(self)@.insert(id, default),
            old(self)@.contains_key(id) ==> final(self)@ == old(self)@,
            final(self)@.contains_key(id),
            *r == final(self)@[id],
    {
        match self.index_of(id) {
            Some(i) => {
                proof {
                    lemma_pairs_map_at(self.entries@, i as int);
                }
                &self.entries[i].1
            }
            None => {
                self.insert(id, default);
                match self.index_of(id) {
                    Some(i) => {
                        proof {
                            lemma_pairs_map_at(self.entries@, i as int);
                        }
                        &self.entries[i].1
                    }
                    None => {
                        proof {
                            assert(false);
                        }
                        &self.entries[0].1
                    }
                }
            }
        }
    }
}

} // verus!
