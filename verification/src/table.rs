//! A small map from text keys to values that keeps its entries in insertion
//! order, so that it can be listed and searched in a stable way.

use vstd::prelude::*;

verus! {

/// No key occurs twice in `l`.
pub open spec fn distinct_keys<T>(l: Seq<(Seq<char>, T)>) -> bool {
    forall|i: int, j: int| 0 <= i < l.len() && 0 <= j < l.len() && i != j ==> l[i].0 != l[j].0
}

/// `k` is the key of some entry of `l`.
pub open spec fn has_key<T>(l: Seq<(Seq<char>, T)>, k: Seq<char>) -> bool {
    exists|i: int| 0 <= i < l.len() && l[i].0 == k
}

/// The map that a listing of entries describes.
pub open spec fn map_of<T>(l: Seq<(Seq<char>, T)>) -> Map<Seq<char>, T> {
    Map::new(
        |k: Seq<char>| has_key(l, k),
        |k: Seq<char>| l[choose|i: int| 0 <= i < l.len() && l[i].0 == k].1,
    )
}

pub proof fn lemma_map_of_index<T>(l: Seq<(Seq<char>, T)>, i: int)
    requires
        distinct_keys(l),
        0 <= i < l.len(),
    ensures
        map_of(l).contains_key(l[i].0),
        map_of(l)[l[i].0] == l[i].1,
{
    assert(has_key(l, l[i].0));
    let j = choose|j: int| 0 <= j < l.len() && l[j].0 == l[i].0;
    assert(j == i);
}

pub proof fn lemma_map_of_push<T>(l: Seq<(Seq<char>, T)>, k: Seq<char>, v: T)
    requires
        distinct_keys(l),
        !has_key(l, k),
    ensures
        distinct_keys(l.push((k, v))),
        map_of(l.push((k, v))) == map_of(l).insert(k, v),
{
    let l2 = l.push((k, v));
    assert forall|i: int, j: int| 0 <= i < l2.len() && 0 <= j < l2.len() && i != j implies l2[i].0
        != l2[j].0 by {
        if i < l.len() && j < l.len() {
            assert(l2[i] == l[i] && l2[j] == l[j]);
        } else if i < l.len() {
            assert(l2[i] == l[i]);
        } else {
            assert(l2[j] == l[j]);
        }
    }
    assert forall|x: Seq<char>| has_key(l2, x) <==> has_key(l, x) || x == k by {
        if has_key(l, x) {
            let i = choose|i: int| 0 <= i < l.len() && l[i].0 == x;
            assert(l2[i] == l[i]);
        }
        if x == k {
            assert(l2[l.len() as int].0 == k);
        }
        if has_key(l2, x) && x != k {
            let i = choose|i: int| 0 <= i < l2.len() && l2[i].0 == x;
            assert(l2[i] == l[i]);
        }
    }
    assert forall|x: Seq<char>| #[trigger] map_of(l2).contains_key(x) implies map_of(l2)[x] == map_of(
        l,
    ).insert(k, v)[x] by {
        let i = choose|i: int| 0 <= i < l2.len() && l2[i].0 == x;
        lemma_map_of_index(l2, i);
        if x != k {
            assert(l2[i] == l[i]);
            lemma_map_of_index(l, i);
        }
    }
    assert(map_of(l2) =~= map_of(l).insert(k, v));
}

pub proof fn lemma_map_of_update<T>(l: Seq<(Seq<char>, T)>, i: int, v: T)
    requires
        distinct_keys(l),
        0 <= i < l.len(),
    ensures
        distinct_keys(l.update(i, (l[i].0, v))),
        map_of(l.update(i, (l[i].0, v))) == map_of(l).insert(l[i].0, v),
{
    let k = l[i].0;
    let l2 = l.update(i, (k, v));
    assert forall|a: int, b: int| 0 <= a < l2.len() && 0 <= b < l2.len() && a != b implies l2[a].0
        != l2[b].0 by {
        assert(l2[a].0 == l[a].0 && l2[b].0 == l[b].0);
    }
    assert forall|x: Seq<char>| has_key(l2, x) <==> has_key(l, x) by {
        if has_key(l, x) {
            let j = choose|j: int| 0 <= j < l.len() && l[j].0 == x;
            assert(l2[j].0 == l[j].0);
        }
        if has_key(l2, x) {
            let j = choose|j: int| 0 <= j < l2.len() && l2[j].0 == x;
            assert(l2[j].0 == l[j].0);
        }
    }
    assert forall|x: Seq<char>| #[trigger] map_of(l2).contains_key(x) implies map_of(l2)[x] == map_of(
        l,
    ).insert(k, v)[x] by {
        let j = choose|j: int| 0 <= j < l2.len() && l2[j].0 == x;
        lemma_map_of_index(l2, j);
        if j != i {
            assert(l2[j] == l[j]);
            lemma_map_of_index(l, j);
        }
    }
    assert(map_of(l2) =~= map_of(l).insert(k, v));
}

pub proof fn lemma_map_of_remove<T>(l: Seq<(Seq<char>, T)>, i: int)
    requires
        distinct_keys(l),
        0 <= i < l.len(),
    ensures
        distinct_keys(l.remove(i)),
        map_of(l.remove(i)) == map_of(l).remove(l[i].0),
{
    let k = l[i].0;
    let l2 = l.remove(i);
    assert forall|a: int| 0 <= a < l2.len() implies #[trigger] l2[a] == l[if a < i { a } else { a + 1 }] by {}
    assert forall|a: int, b: int| 0 <= a < l2.len() && 0 <= b < l2.len() && a != b implies l2[a].0
        != l2[b].0 by {
        assert(l2[a] == l[if a < i { a } else { a + 1 }]);
        assert(l2[b] == l[if b < i { b } else { b + 1 }]);
    }
    assert forall|x: Seq<char>| has_key(l2, x) <==> has_key(l, x) && x != k by {
        if has_key(l, x) && x != k {
            let j = choose|j: int| 0 <= j < l.len() && l[j].0 == x;
            assert(j != i);
            let a = if j < i { j } else { j - 1 };
            assert(l2[a] == l[j]);
        }
        if has_key(l2, x) {
            let a = choose|a: int| 0 <= a < l2.len() && l2[a].0 == x;
            assert(l2[a] == l[if a < i { a } else { a + 1 }]);
        }
    }
    assert forall|x: Seq<char>| #[trigger] map_of(l2).contains_key(x) implies map_of(l2)[x] == map_of(
        l,
    )[x] by {
        let a = choose|a: int| 0 <= a < l2.len() && l2[a].0 == x;
        lemma_map_of_index(l2, a);
        let j = if a < i { a } else { a + 1 };
        assert(l2[a] == l[j]);
        lemma_map_of_index(l, j);
    }
    assert(map_of(l2) =~= map_of(l).remove(k));
}

/// Entries keyed by text, each key at most once, in insertion order.
pub struct Table<V> {
    entries: Vec<(String, V)>,
}

impl<V: View> Table<V> {
    /// The entries in order, keys and values by their views.
    pub closed spec fn listing(&self) -> Seq<(Seq<char>, V::V)> {
        self.entries@.map_values(|e: (String, V)| (e.0@, e.1@))
    }

    /// No key occurs twice.
    pub open spec fn wf(&self) -> bool {
        distinct_keys(self.listing())
    }

    /// The map that the entries describe.
    pub open spec fn map(&self) -> Map<Seq<char>, V::V> {
        map_of(self.listing())
    }

    /// An empty table.
    pub fn new() -> (t: Self)
        ensures
            t.wf(),
            t.listing() == Seq::<(Seq<char>, V::V)>::empty(),
            t.map() == Map::<Seq<char>, V::V>::empty(),
    {
        let t = Table { entries: Vec::new() };
        assert(t.listing() =~= Seq::<(Seq<char>, V::V)>::empty());
        assert(t.map() =~= Map::<Seq<char>, V::V>::empty());
        t
    }

    /// The number of entries.
    pub fn len(&self) -> (n: usize)
        ensures
            n == self.listing().len(),
    {
        self.entries.len()
    }

    /// The entry at position `i`.
    pub fn entry(&self, i: usize) -> (e: &(String, V))
        requires
            i < self.listing().len(),
        ensures
            (e.0@, e.1@) == self.listing()[i as int],
    {
        &self.entries[i]
    }

    /// The position of the entry with key `key`.
    pub fn find(&self, key: &str) -> (r: Option<usize>)
        requires
            self.wf(),
        ensures
            match r {
                Some(i) => i < self.listing().len() && self.listing()[i as int].0 == key@,
                None => !self.map().contains_key(key@),
            },
    {
        let k = String::from_str(key);
        let mut i: usize = 0;
        while i < self.entries.len()
            invariant
                k@ == key@,
                i <= self.entries@.len(),
                forall|j: int| 0 <= j < i ==> self.listing()[j].0 != key@,
            decreases self.entries@.len() - i,
        {
            if self.entries[i].0 == k {
                return Some(i);
            }
            i = i + 1;
        }
        None
    }

    /// The value stored under `key`.
    pub fn get(&self, key: &str) -> (r: Option<&V>)
        requires
            self.wf(),
        ensures
            match r {
                Some(v) => self.map().contains_key(key@) && v@ == self.map()[key@],
                None => !self.map().contains_key(key@),
            },
    {
        match self.find(key) {
            Some(i) => {
                proof {
                    lemma_map_of_index(self.listing(), i as int);
                }
                Some(&self.entries[i].1)
            },
            None => None,
        }
    }

    /// Replaces the value at position `i`, keeping its key and position.
    pub fn set_at(&mut self, i: usize, value: V)
        requires
            old(self).wf(),
            i < old(self).listing().len(),
        ensures
            final(self).wf(),
            final(self).listing() == old(self).listing().update(
                i as int,
                (old(self).listing()[i as int].0, value@),
            ),
            final(self).map() == old(self).map().insert(old(self).listing()[i as int].0, value@),
    {
        let key = self.entries[i].0.clone();
        let ghost l = self.listing();
        self.entries[i] = (key, value);
        proof {
            assert(self.listing() =~= l.update(i as int, (l[i as int].0, value@)));
            lemma_map_of_update(l, i as int, value@);
        }
    }

    /// Stores `value` under `key`: in place when the key is present, as a new
    /// last entry otherwise.
    pub fn insert(&mut self, key: String, value: V)
        requires
            old(self).wf(),
        ensures
            final(self).wf(),
            final(self).map() == old(self).map().insert(key@, value@),
            old(self).map().contains_key(key@) ==> final(self).listing().len() == old(
                self,
            ).listing().len(),
            !old(self).map().contains_key(key@) ==> final(self).listing() == old(
                self,
            ).listing().push((key@, value@)),
    {
        match self.find(key.as_str()) {
            Some(i) => {
                self.set_at(i, value);
            },
            None => {
                let ghost l = self.listing();
                proof {
                    assert(!has_key(l, key@));
                    lemma_map_of_push(l, key@, value@);
                }
                self.entries.push((key, value));
                assert(self.listing() =~= l.push((key@, value@)));
            },
        }
    }

    /// Drops the entry with key `key`, if any, keeping the others in order,
    /// and hands its value back.
    pub fn remove(&mut self, key: &str) -> (r: Option<V>)
        requires
            old(self).wf(),
        ensures
            final(self).wf(),
            final(self).map() == old(self).map().remove(key@),
            match r {
                Some(v) => old(self).map().contains_key(key@) && v@ == old(self).map()[key@],
                None => !old(self).map().contains_key(key@),
            },
    {
        match self.find(key) {
            Some(i) => {
                let ghost l = self.listing();
                proof {
                    lemma_map_of_index(l, i as int);
                    lemma_map_of_remove(l, i as int);
                }
                let (_, v) = self.entries.remove(i);
                assert(self.listing() =~= l.remove(i as int));
                Some(v)
            },
            None => {
                assert(old(self).map().remove(key@) =~= old(self).map());
                None
            },
        }
    }
}

} // verus!
