//! A small map keyed by strings, kept as two parallel lists.

use vstd::prelude::*;

use crate::text::str_equal;

verus! {

/// A map from strings to values; each key appears once.
pub struct StrMap<V> {
    keys: Vec<String>,
    vals: Vec<V>,
}

impl<V> StrMap<V> {
    /// The keys, in insertion order.
    pub closed spec fn key_seq(&self) -> Seq<Seq<char>> {
        self.keys@.map_values(|s: String| s@)
    }

    /// The values, in the order of their keys.
    pub closed spec fn val_seq(&self) -> Seq<V> {
        self.vals@
    }

    /// Keys and values line up, and no key appears twice.
    pub open spec fn wf(&self) -> bool {
        &&& self.key_seq().len() == self.val_seq().len()
        &&& self.key_seq().no_duplicates()
    }

    /// The map as a mathematical map.
    pub open spec fn map(&self) -> Map<Seq<char>, V> {
        Map::new(
            |k: Seq<char>| self.key_seq().contains(k),
            |k: Seq<char>| self.val_seq()[self.key_seq().index_of(k)],
        )
    }

    /// An empty map.
    pub fn new() -> (r: Self)
        ensures
            r.wf(),
            r.key_seq().len() == 0,
            r.map() == Map::<Seq<char>, V>::empty(),
    {
        let r = StrMap { keys: Vec::new(), vals: Vec::new() };
        assert(r.key_seq() =~= Seq::<Seq<char>>::empty());
        assert(r.map() =~= Map::<Seq<char>, V>::empty());
        r
    }

    /// Number of entries.
    pub fn len(&self) -> (r: usize)
        requires
            self.wf(),
        ensures
            r == self.key_seq().len(),
    {
        self.keys.len()
    }

    /// Position of a key.
    pub fn find(&self, k: &str) -> (r: Option<usize>)
        requires
            self.wf(),
        ensures
            match r {
                Some(i) => i < self.key_seq().len() && self.key_seq()[i as int] == k@,
                None => !self.key_seq().contains(k@),
            },
    {
        let mut i: usize = 0;
        while i < self.keys.len()
            invariant
                self.wf(),
                i <= self.key_seq().len(),
                forall|j: int| 0 <= j < i ==> self.key_seq()[j] != k@,
            decreases self.key_seq().len() - i,
        {
            if str_equal(self.keys[i].as_str(), k) {
                return Some(i);
            }
            i = i + 1;
        }
        None
    }

    /// The key at a position.
    pub fn key_at(&self, i: usize) -> (r: &String)
        requires
            self.wf(),
            i < self.key_seq().len(),
        ensures
            r@ == self.key_seq()[i as int],
    {
        &self.keys[i]
    }

    /// The value at a position.
    pub fn value_at(&self, i: usize) -> (r: &V)
        requires
            self.wf(),
            i < self.key_seq().len(),
        ensures
            *r == self.val_seq()[i as int],
    {
        &self.vals[i]
    }

    /// The value at a position, for modification.
    pub fn value_at_mut(&mut self, i: usize) -> (r: &mut V)
        requires
            old(self).wf(),
            i < old(self).key_seq().len(),
        ensures
            *r == old(self).val_seq()[i as int],
            final(self).key_seq() == old(self).key_seq(),
            final(self).val_seq() == old(self).val_seq().update(i as int, *final(r)),
            final(self).wf(),
    {
        &mut self.vals[i]
    }

    /// Whether the key is present.
    pub fn contains_key(&self, k: &str) -> (r: bool)
        requires
            self.wf(),
        ensures
            r == self.map().contains_key(k@),
    {
        self.find(k).is_some()
    }

    /// The value under a key.
    pub fn get(&self, k: &str) -> (r: Option<&V>)
        requires
            self.wf(),
        ensures
            match r {
                Some(v) => self.map().contains_key(k@) && *v == self.map()[k@],
                None => !self.map().contains_key(k@),
            },
    {
        match self.find(k) {
            Some(i) => {
                proof {
                    self.lemma_index_of(i as int);
                }
                Some(&self.vals[i])
            },
            None => None,
        }
    }

    /// Sets the value under a key, replacing the one there.
    pub fn insert(&mut self, k: String, v: V)
        requires
            old(self).wf(),
        ensures
            final(self).wf(),
            final(self).map() == old(self).map().insert(k@, v),
    {
        let ghost old_keys = self.key_seq();
        let ghost old_map = self.map();
        match self.find(k.as_str()) {
            Some(i) => {
                self.vals.set(i, v);
                proof {
                    assert(self.key_seq() == old_keys);
                    assert forall|j: int| 0 <= j < old_keys.len() implies self.key_seq().index_of(
                        #[trigger] old_keys[j],
                    ) == j by {
                        self.lemma_index_of(j);
                    }
                    assert(self.map() =~= old_map.insert(k@, v));
                }
            },
            None => {
                let ghost kv = k@;
                self.keys.push(k);
                self.vals.push(v);
                proof {
                    assert(self.key_seq() =~= old_keys.push(kv));
                    assert forall|j: int| 0 <= j < self.key_seq().len() implies self.key_seq().index_of(
                        #[trigger] self.key_seq()[j],
                    ) == j by {
                        self.lemma_index_of(j);
                    }
                    assert forall|key: Seq<char>| #[trigger] self.key_seq().contains(key) <==> (
                    old_keys.contains(key) || key == kv) by {
                        if self.key_seq().contains(key) {
                            let j = choose|j: int| 0 <= j < self.key_seq().len() && self.key_seq()[j] == key;
                            if j < old_keys.len() {
                                assert(old_keys[j] == key);
                            }
                        }
                        if old_keys.contains(key) {
                            let j = choose|j: int| 0 <= j < old_keys.len() && old_keys[j] == key;
                            assert(self.key_seq()[j] == key);
                        }
                        if key == kv {
                            assert(self.key_seq()[old_keys.len() as int] == key);
                        }
                    }
                    assert forall|key: Seq<char>| old_keys.contains(key) implies #[trigger] self.key_seq().index_of(key) == old_keys.index_of(key) by {
                        let j = old_keys.index_of(key);
                        assert(self.key_seq()[j] == key);
                        self.lemma_index_of(j);
                    }
                    assert(self.map() =~= old_map.insert(kv, v));
                }
            },
        }
    }

    proof fn lemma_index_of(&self, i: int)
        requires
            self.wf(),
            0 <= i < self.key_seq().len(),
        ensures
            self.key_seq().index_of(self.key_seq()[i]) == i,
            self.map().contains_key(self.key_seq()[i]),
            self.map()[self.key_seq()[i]] == self.val_seq()[i],
    {
        let k = self.key_seq()[i];
        assert(self.key_seq().contains(k));
        let j = self.key_seq().index_of(k);
        assert(0 <= j < self.key_seq().len() && self.key_seq()[j] == k);
    }

    /// The value at position `i` is the one the map holds under the key there.
    pub proof fn lemma_value_at(&self, i: int)
        requires
            self.wf(),
            0 <= i < self.key_seq().len(),
        ensures
            self.map().contains_key(self.key_seq()[i]),
            self.map()[self.key_seq()[i]] == self.val_seq()[i],
    {
        self.lemma_index_of(i);
    }

    /// Replacing the value at position `i` replaces the value the map holds
    /// under the key there.
    pub proof fn lemma_map_after_update(a: &Self, b: &Self, i: int)
        requires
            a.wf(),
            0 <= i < a.key_seq().len(),
            b.key_seq() == a.key_seq(),
            b.val_seq() == a.val_seq().update(i, b.val_seq()[i]),
        ensures
            b.wf(),
            b.map() == a.map().insert(a.key_seq()[i], b.val_seq()[i]),
    {
        a.lemma_index_of(i);
        assert forall|j: int| 0 <= j < a.key_seq().len() implies a.key_seq().index_of(
            #[trigger] a.key_seq()[j],
        ) == j by {
            a.lemma_index_of(j);
        }
        assert(b.map() =~= a.map().insert(a.key_seq()[i], b.val_seq()[i]));
    }

    /// The same fact for every map that replaces the value at position `i`,
    /// for use where that map is only known later.
    pub proof fn lemma_map_after_any_update(a: &Self, i: int)
        requires
            a.wf(),
            0 <= i < a.key_seq().len(),
        ensures
            forall|b: Self|
                b.key_seq() == a.key_seq() && b.val_seq() == a.val_seq().update(i, b.val_seq()[i])
                    ==> b.wf() && #[trigger] b.map() == a.map().insert(a.key_seq()[i], b.val_seq()[i]),
    {
        assert forall|b: Self|
            b.key_seq() == a.key_seq() && b.val_seq() == a.val_seq().update(i, b.val_seq()[i])
                implies b.wf() && #[trigger] b.map() == a.map().insert(a.key_seq()[i], b.val_seq()[i]) by {
            Self::lemma_map_after_update(a, &b, i);
        }
    }
}

} // verus!
