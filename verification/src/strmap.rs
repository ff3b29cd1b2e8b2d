//! A small map keyed by strings, stored as an association list whose keys
//! are pairwise distinct. Its view is a `Map` from the key's characters to
//! the value's view.
use vstd::prelude::*;
use crate::text::{str_eq};

verus! {

/// The map that an association list describes: later pairs win.
pub open spec fn assoc_map<K, W>(ks: Seq<K>, vs: Seq<W>) -> Map<K, W>
    decreases ks.len(),
{
    if ks.len() == 0 || vs.len() == 0 {
        Map::empty()
    } else {
        assoc_map(ks.drop_last(), vs.drop_last()).insert(ks.last(), vs.last())
    }
}

pub proof fn lemma_assoc_map<K, W>(ks: Seq<K>, vs: Seq<W>)
    requires
        ks.len() == vs.len(),
    ensures
        forall|k: K| #[trigger] assoc_map(ks, vs).contains_key(k) <==> ks.contains(k),
        assoc_map(ks, vs).dom().finite(),
    decreases ks.len(),
{
    if ks.len() > 0 {
        lemma_assoc_map(ks.drop_last(), vs.drop_last());
        assert forall|k: K| #[trigger] assoc_map(ks, vs).contains_key(k) <==> ks.contains(k) by {
            if ks.contains(k) && k != ks.last() {
                let i = choose|i: int| 0 <= i < ks.len() && ks[i] == k;
                assert(ks.drop_last()[i] == k);
            }
            if ks.drop_last().contains(k) {
                let i = choose|i: int| 0 <= i < ks.drop_last().len() && ks.drop_last()[i] == k;
                assert(ks[i] == k);
            }
            assert(ks[ks.len() - 1] == ks.last());
        }
    } else {
        assert forall|k: K| #[trigger] assoc_map(ks, vs).contains_key(k) <==> ks.contains(k) by {}
        assert(assoc_map(ks, vs).dom() =~= Set::empty());
    }
}

pub proof fn lemma_assoc_map_index<K, W>(ks: Seq<K>, vs: Seq<W>, i: int)
    requires
        ks.len() == vs.len(),
        0 <= i < ks.len(),
        forall|a: int, b: int| 0 <= a < b < ks.len() ==> ks[a] != ks[b],
    ensures
        assoc_map(ks, vs)[ks[i]] == vs[i],
    decreases ks.len(),
{
    if i < ks.len() - 1 {
        lemma_assoc_map_index(ks.drop_last(), vs.drop_last(), i);
        assert(ks[i] != ks[ks.len() - 1]);
    }
}

pub proof fn lemma_assoc_map_len<K, W>(ks: Seq<K>, vs: Seq<W>)
    requires
        ks.len() == vs.len(),
        forall|a: int, b: int| 0 <= a < b < ks.len() ==> ks[a] != ks[b],
    ensures
        assoc_map(ks, vs).dom().len() == ks.len(),
    decreases ks.len(),
{
    if ks.len() > 0 {
        let ks0 = ks.drop_last();
        let vs0 = vs.drop_last();
        lemma_assoc_map_len(ks0, vs0);
        lemma_assoc_map(ks0, vs0);
        assert(!ks0.contains(ks.last())) by {
            if ks0.contains(ks.last()) {
                let j = choose|j: int| 0 <= j < ks0.len() && ks0[j] == ks.last();
                assert(ks[j] == ks[ks.len() - 1]);
            }
        }
    }
}

/// A map from strings to values, kept as a list of pairs with distinct keys.
pub struct StrMap<V> {
    entries: Vec<(String, V)>,
}

impl<V: View> View for StrMap<V> {
    type V = Map<Seq<char>, V::V>;

    closed spec fn view(&self) -> Map<Seq<char>, V::V> {
        assoc_map(self.keys(), self.vals())
    }
}

impl<V: View> StrMap<V> {
    /// The keys, in storage order.
    pub closed spec fn keys(self) -> Seq<Seq<char>> {
        self.entries@.map_values(|e: (String, V)| e.0@)
    }

    /// The value views, in storage order.
    pub closed spec fn vals(self) -> Seq<V::V> {
        self.entries@.map_values(|e: (String, V)| e.1@)
    }

    /// The stored values themselves, in storage order.
    pub closed spec fn raw_vals(self) -> Seq<V> {
        self.entries@.map_values(|e: (String, V)| e.1)
    }

    /// Keys are pairwise distinct.
    pub closed spec fn wf(self) -> bool {
        forall|a: int, b: int| 0 <= a < b < self.entries@.len() ==> self.entries@[a].0@
            != self.entries@[b].0@
    }

    /// Relates the view to the stored pairs.
    pub proof fn lemma_view(self)
        requires
            self.wf(),
        ensures
            self.keys().len() == self.vals().len(),
            forall|k: Seq<char>| #[trigger] self@.contains_key(k) <==> self.keys().contains(k),
            forall|i: int| 0 <= i < self.keys().len() ==> #[trigger] self@[self.keys()[i]] == self.vals()[i],
            forall|i: int| 0 <= i < self.keys().len() ==> #[trigger] self@.contains_key(self.keys()[i]),
            self@.dom().finite(),
            self@.dom().len() == self.keys().len(),
            forall|a: int, b: int| 0 <= a < b < self.keys().len() ==> self.keys()[a] != self.keys()[b],
            self.raw_vals().len() == self.keys().len(),
            forall|i: int| 0 <= i < self.keys().len() ==> #[trigger] self.raw_vals()[i]@ == self.vals()[i],
    {
        lemma_assoc_map(self.keys(), self.vals());
        lemma_assoc_map_len(self.keys(), self.vals());
        assert forall|i: int| 0 <= i < self.keys().len() implies #[trigger] self@[self.keys()[i]]
            == self.vals()[i] by {
            lemma_assoc_map_index(self.keys(), self.vals(), i);
        }
        assert forall|i: int| 0 <= i < self.keys().len() implies #[trigger] self@.contains_key(
            self.keys()[i],
        ) by {
            assert(self.keys().contains(self.keys()[i]));
        }
    }

    /// An empty map.
    pub fn new() -> (m: Self)
        ensures
            m.wf(),
            m@ == Map::<Seq<char>, V::V>::empty(),
            m.keys().len() == 0,
            m.raw_vals().len() == 0,
    {
        let m = StrMap { entries: Vec::new() };
        assert(m@ =~= Map::<Seq<char>, V::V>::empty());
        m
    }

    /// Number of keys.
    pub fn len(&self) -> (n: usize)
        requires
            self.wf(),
        ensures
            n == self.keys().len(),
            n == self@.dom().len(),
    {
        proof {
            self.lemma_view();
        }
        self.entries.len()
    }

    /// Whether the map has no keys.
    pub fn is_empty(&self) -> (r: bool)
        requires
            self.wf(),
        ensures
            r == (self@.dom().len() == 0),
            r == (self@ == Map::<Seq<char>, V::V>::empty()),
    {
        proof {
            self.lemma_view();
            if self.entries.len() > 0 {
                assert(self@.contains_key(self.keys()[0]));
            } else {
                assert(self@ =~= Map::<Seq<char>, V::V>::empty());
            }
        }
        self.entries.len() == 0
    }

    /// The key stored at position `i`.
    pub fn key_at(&self, i: usize) -> (k: &str)
        requires
            i < self.keys().len(),
        ensures
            k@ == self.keys()[i as int],
    {
        self.entries[i].0.as_str()
    }

    /// The value stored at position `i`.
    pub fn value_at(&self, i: usize) -> (v: &V)
        requires
            i < self.keys().len(),
        ensures
            v@ == self.vals()[i as int],
            *v == self.raw_vals()[i as int],
    {
        &self.entries[i].1
    }

    /// The position of key `k`, if present.
    fn find(&self, k: &str) -> (r: Option<usize>)
        requires
            self.wf(),
        ensures
            r is None <==> !self@.contains_key(k@),
            r matches Some(i) ==> i < self.keys().len() && self.keys()[i as int] == k@,
    {
        proof {
            self.lemma_view();
        }
        let mut i: usize = 0;
        while i < self.entries.len()
            invariant
                self.wf(),
                0 <= i <= self.entries@.len(),
                self.keys().len() == self.entries@.len(),
                forall|j: int| 0 <= j < i ==> self.keys()[j] != k@,
            decreases self.entries@.len() - i,
        {
            if str_eq(self.entries[i].0.as_str(), k) {
                assert(self.keys()[i as int] == k@);
                assert(self.keys().contains(k@));
                proof {
                    self.lemma_view();
                }
                return Some(i);
            }
            i = i + 1;
        }
        assert(!self.keys().contains(k@));
        None
    }

    /// `HashMap::contains_key`.
    pub fn contains_key(&self, k: &str) -> (r: bool)
        requires
            self.wf(),
        ensures
            r == self@.contains_key(k@),
    {
        self.find(k).is_some()
    }

    /// `HashMap::get`.
    pub fn get(&self, k: &str) -> (r: Option<&V>)
        requires
            self.wf(),
        ensures
            r is Some <==> self@.contains_key(k@),
            r matches Some(v) ==> v@ == self@[k@],
            r matches Some(v) ==> self.raw_vals().contains(*v),
    {
        proof {
            self.lemma_view();
        }
        match self.find(k) {
            Some(i) => {
                assert(self.raw_vals()[i as int] == self.entries@[i as int].1);
                Some(&self.entries[i].1)
            },
            None => None,
        }
    }

    /// `HashMap::insert`: sets the value of `k`, returning the previous one.
    pub fn insert(&mut self, k: String, v: V) -> (r: Option<V>)
        requires
            old(self).wf(),
        ensures
            final(self).wf(),
            final(self)@ == old(self)@.insert(k@, v@),
            r is Some <==> old(self)@.contains_key(k@),
            r matches Some(o) ==> o@ == old(self)@[k@],
            old(self)@.contains_key(k@) ==> final(self).keys() == old(self).keys(),
            !old(self)@.contains_key(k@) ==> final(self).keys() == old(self).keys().push(k@),
            forall|x: V| #[trigger] final(self).raw_vals().contains(x) ==> x == v || old(self).raw_vals().contains(x),
    {
        proof {
            self.lemma_view();
        }
        match self.find(k.as_str()) {
            Some(i) => {
                let ghost ks = self.keys();
                let ghost vs = self.vals();
                let ghost rv = self.raw_vals();
                let prev = self.entries.remove(i);
                self.entries.insert(i, (k, v));
                proof {
                    assert(self.raw_vals() =~= rv.update(i as int, v));
                    assert forall|x: V| #[trigger] self.raw_vals().contains(x) implies x == v || rv.contains(x) by {
                        let j = choose|j: int| 0 <= j < self.raw_vals().len() && self.raw_vals()[j] == x;
                        if j != i {
                            assert(rv[j] == x);
                        }
                    }
                    assert(self.keys() =~= ks);
                    assert(self.vals() =~= vs.update(i as int, v@));
                    assert(self.wf());
                    self.lemma_view();
                    assert(prev.1@ == vs[i as int]);
                    assert(self@ =~= old(self)@.insert(k@, v@)) by {
                        assert forall|key: Seq<char>| #[trigger] self@.contains_key(key)
                            implies old(self)@.insert(k@, v@).contains_key(key) && self@[key]
                            == old(self)@.insert(k@, v@)[key] by {
                            let j = choose|j: int| 0 <= j < ks.len() && ks[j] == key;
                            assert(self@[self.keys()[j]] == self.vals()[j]);
                            assert(old(self)@[old(self).keys()[j]] == old(self).vals()[j]);
                        }
                        assert forall|key: Seq<char>| #[trigger] old(self)@.insert(
                            k@,
                            v@,
                        ).contains_key(key) implies self@.contains_key(key) by {
                            if key != k@ {
                                assert(old(self).keys().contains(key));
                            } else {
                                assert(self.keys()[i as int] == key);
                            }
                        }
                    }
                }
                Some(prev.1)
            },
            None => {
                let ghost ks = self.keys();
                let ghost vs = self.vals();
                let ghost rv = self.raw_vals();
                self.entries.push((k, v));
                proof {
                    assert(self.raw_vals() =~= rv.push(v));
                    assert forall|x: V| #[trigger] self.raw_vals().contains(x) implies x == v || rv.contains(x) by {
                        let j = choose|j: int| 0 <= j < self.raw_vals().len() && self.raw_vals()[j] == x;
                        if j < rv.len() {
                            assert(rv[j] == x);
                        }
                    }
                    assert(self.keys() =~= ks.push(k@));
                    assert(self.vals() =~= vs.push(v@));
                    assert(!ks.contains(k@));
                    assert forall|a: int, b: int| 0 <= a < b < self.entries@.len() implies self.entries@[a].0@
                        != self.entries@[b].0@ by {
                        if b == ks.len() {
                            assert(ks[a] == self.entries@[a].0@);
                        } else {
                            assert(old(self).entries@[a].0@ == self.entries@[a].0@);
                        }
                    }
                    assert(self.keys().drop_last() =~= ks);
                    assert(self.vals().drop_last() =~= vs);
                    assert(self@ == old(self)@.insert(k@, v@));
                }
                None
            },
        }
    }

    /// Removes and returns the last stored pair.
    pub fn pop(&mut self) -> (r: Option<(String, V)>)
        requires
            old(self).wf(),
        ensures
            final(self).wf(),
            r is None <==> old(self).keys().len() == 0,
            r matches Some(kv) ==> {
                &&& old(self).keys().len() > 0
                &&& kv.0@ == old(self).keys().last()
                &&& kv.1 == old(self).raw_vals().last()
                &&& kv.1@ == old(self)@[kv.0@]
                &&& final(self)@ == old(self)@.remove(kv.0@)
                &&& final(self).keys() == old(self).keys().drop_last()
                &&& final(self).raw_vals() == old(self).raw_vals().drop_last()
            },
            r is None ==> final(self)@ == old(self)@,
    {
        proof {
            self.lemma_view();
        }
        let ghost ks = self.keys();
        let ghost vs = self.vals();
        let ghost rv = self.raw_vals();
        match self.entries.pop() {
            Some(kv) => {
                proof {
                    assert(self.keys() =~= ks.drop_last());
                    assert(self.vals() =~= vs.drop_last());
                    assert(self.raw_vals() =~= rv.drop_last());
                    assert(self@ == assoc_map(ks.drop_last(), vs.drop_last()));
                    let last = ks.len() - 1;
                    assert(kv.0@ == ks[last]);
                    assert(old(self)@[ks[last]] == vs[last]);
                    lemma_assoc_map(ks.drop_last(), vs.drop_last());
                    assert(!ks.drop_last().contains(kv.0@)) by {
                        if ks.drop_last().contains(kv.0@) {
                            let j = choose|j: int| 0 <= j < ks.drop_last().len() && ks.drop_last()[j] == kv.0@;
                            assert(ks[j] == ks[last]);
                        }
                    }
                    assert(self@ =~= old(self)@.remove(kv.0@));
                }
                Some(kv)
            },
            None => None,
        }
    }

    /// `HashMap::remove`: deletes `k`, returning its value.
    pub fn remove(&mut self, k: &str) -> (r: Option<V>)
        requires
            old(self).wf(),
        ensures
            final(self).wf(),
            final(self)@ == old(self)@.remove(k@),
            r is Some <==> old(self)@.contains_key(k@),
            r matches Some(o) ==> o@ == old(self)@[k@] && old(self).raw_vals().contains(o),
            forall|x: V| #[trigger] final(self).raw_vals().contains(x) ==> old(self).raw_vals().contains(x),
    {
        proof {
            self.lemma_view();
        }
        match self.find(k) {
            Some(i) => {
                let ghost ks = self.keys();
                let ghost vs = self.vals();
                let ghost rv = self.raw_vals();
                let prev = self.entries.remove(i);
                proof {
                    assert(self.keys() =~= ks.remove(i as int));
                    assert(self.vals() =~= vs.remove(i as int));
                    assert(self.raw_vals() =~= rv.remove(i as int));
                    assert(rv[i as int] == prev.1);
                    assert forall|a: int, b: int| 0 <= a < b < self.entries@.len() implies self.entries@[a].0@
                        != self.entries@[b].0@ by {
                        assert(self.keys()[a] == self.entries@[a].0@);
                        assert(self.keys()[b] == self.entries@[b].0@);
                        if a < i && b < i {
                            assert(ks[a] != ks[b]);
                        } else if a < i {
                            assert(ks[a] != ks[b + 1]);
                        } else {
                            assert(ks[a + 1] != ks[b + 1]);
                        }
                    }
                    self.lemma_view();
                    assert forall|x: V| #[trigger] self.raw_vals().contains(x) implies rv.contains(x) by {
                        let j = choose|j: int| 0 <= j < self.raw_vals().len() && self.raw_vals()[j] == x;
                        if j < i {
                            assert(rv[j] == x);
                        } else {
                            assert(rv[j + 1] == x);
                        }
                    }
                    assert(self@ =~= old(self)@.remove(k@)) by {
                        assert forall|key: Seq<char>| #[trigger] self@.contains_key(key)
                            implies old(self)@.remove(k@).contains_key(key) && self@[key]
                            == old(self)@[key] by {
                            let j = choose|j: int| 0 <= j < self.keys().len() && self.keys()[j] == key;
                            let jj = if j < i { j } else { j + 1 };
                            assert(ks[jj] == key);
                            assert(self@[self.keys()[j]] == self.vals()[j]);
                            assert(old(self)@[old(self).keys()[jj]] == old(self).vals()[jj]);
                            assert(key != k@);
                        }
                        assert forall|key: Seq<char>| #[trigger] old(self)@.remove(k@).contains_key(key)
                            implies self@.contains_key(key) by {
                            let j = choose|j: int| 0 <= j < ks.len() && ks[j] == key;
                            assert(j != i);
                            let jj = if j < i { j } else { j - 1 };
                            assert(self.keys()[jj] == key);
                        }
                    }
                }
                Some(prev.1)
            },
            None => {
                assert(self@ =~= old(self)@.remove(k@));
                None
            },
        }
    }
}

} // verus!
