//! A map keyed by strings that keeps its keys in insertion order.

use vstd::prelude::*;

verus! {

/// A finite map from string keys to values. Each key occurs at most once;
/// keys keep the order in which they were first inserted.
#[derive(Debug, Clone)]
pub struct StringMap<V> {
    entries: Vec<(String, V)>,
}

impl<V> View for StringMap<V> {
    type V = Map<Seq<char>, V>;

    /// The key/value pairs as a mathematical map.
    open spec fn view(&self) -> Map<Seq<char>, V> {
        Map::new(
            |k: Seq<char>| self.key_seq().contains(k),
            |k: Seq<char>| self.value_seq()[self.key_seq().index_of(k)],
        )
    }
}

impl<V> StringMap<V> {
    /// The keys in insertion order.
    pub closed spec fn key_seq(&self) -> Seq<Seq<char>> {
        self.entries@.map_values(|e: (String, V)| e.0@)
    }

    /// The values, in the order of their keys.
    pub closed spec fn value_seq(&self) -> Seq<V> {
        self.entries@.map_values(|e: (String, V)| e.1)
    }

    /// Keys are distinct and each key has one value.
    pub open spec fn wf(&self) -> bool {
        &&& self.key_seq().no_duplicates()
        &&& self.key_seq().len() == self.value_seq().len()
    }

    /// The value stored under `k`, if any.
    pub open spec fn lookup(&self, k: Seq<char>) -> Option<V> {
        if self@.contains_key(k) {
            Some(self@[k])
        } else {
            None
        }
    }

    /// Relates the map view to the ordered keys and values.
    pub proof fn lemma_view(&self)
        requires
            self.wf(),
        ensures
            forall|i: int|
                #![trigger self.key_seq()[i]]
                0 <= i < self.key_seq().len() ==> self@.contains_key(self.key_seq()[i])
                    && self@[self.key_seq()[i]] == self.value_seq()[i],
            forall|k: Seq<char>| #[trigger]
                self@.contains_key(k) <==> self.key_seq().contains(k),
            self@.dom().finite(),
            self@.dom().len() == self.key_seq().len(),
    {
        assert forall|i: int|
            #![trigger self.key_seq()[i]]
            0 <= i < self.key_seq().len() implies self@.contains_key(self.key_seq()[i])
            && self@[self.key_seq()[i]] == self.value_seq()[i] by {
            let k = self.key_seq()[i];
            assert(self.key_seq().contains(k));
            let j = self.key_seq().index_of(k);
            assert(self.key_seq()[j] == k);
        }
        self.key_seq().unique_seq_to_set();
        assert(self@.dom() =~= self.key_seq().to_set());
    }

    /// An empty map.
    pub fn new() -> (r: Self)
        ensures
            r.wf(),
            r.key_seq() == Seq::<Seq<char>>::empty(),
            r.value_seq() == Seq::<V>::empty(),
            r@ == Map::<Seq<char>, V>::empty(),
    {
        let r = StringMap { entries: Vec::new() };
        assert(r.key_seq() =~= Seq::<Seq<char>>::empty());
        assert(r.value_seq() =~= Seq::<V>::empty());
        assert(r@ =~= Map::<Seq<char>, V>::empty());
        r
    }

    /// The number of keys.
    pub fn len(&self) -> (r: usize)
        ensures
            r == self.key_seq().len(),
    {
        self.entries.len()
    }

    /// Whether the map holds no key.
    pub fn is_empty(&self) -> (r: bool)
        ensures
            r == (self.key_seq().len() == 0),
    {
        self.entries.len() == 0
    }

    /// The position of `key` among the keys, if present.
    pub fn find(&self, key: &str) -> (r: Option<usize>)
        requires
            self.wf(),
        ensures
            match r {
                Some(i) => i < self.key_seq().len() && self.key_seq()[i as int] == key@,
                None => !self.key_seq().contains(key@),
            },
    {
        let wanted: String = key.to_owned();
        let mut i: usize = 0;
        while i < self.entries.len()
            invariant
                i <= self.entries@.len(),
                wanted@ == key@,
                forall|j: int| 0 <= j < i ==> self.key_seq()[j] != key@,
            decreases self.entries@.len() - i,
        {
            if self.entries[i].0 == wanted {
                return Some(i);
            }
            i = i + 1;
        }
        None
    }

    /// Whether `key` is present.
    pub fn contains_key(&self, key: &str) -> (r: bool)
        requires
            self.wf(),
        ensures
            r == self@.contains_key(key@),
    {
        self.find(key).is_some()
    }

    /// The value under `key`, if present.
    pub fn get(&self, key: &str) -> (r: Option<&V>)
        requires
            self.wf(),
        ensures
            match r {
                Some(v) => self@.contains_key(key@) && *v == self@[key@],
                None => !self@.contains_key(key@),
            },
    {
        proof {
            self.lemma_view();
        }
        match self.find(key) {
            Some(i) => {
                assert(self.key_seq()[i as int] == key@);
                Some(&self.entries[i].1)
            },
            None => None,
        }
    }

    /// The key at position `i`.
    pub fn key_at(&self, i: usize) -> (r: &String)
        requires
            i < self.key_seq().len(),
        ensures
            r@ == self.key_seq()[i as int],
    {
        &self.entries[i].0
    }

    /// The value at position `i`.
    pub fn value_at(&self, i: usize) -> (r: &V)
        requires
            i < self.key_seq().len(),
            self.wf(),
        ensures
            *r == self.value_seq()[i as int],
    {
        &self.entries[i].1
    }

    /// Insert or overwrite the value under `key`. A new key goes last; an
    /// existing key keeps its position.
    pub fn insert(&mut self, key: String, value: V)
        requires
            old(self).wf(),
        ensures
            final(self).wf(),
            final(self)@ == old(self)@.insert(key@, value),
            old(self).key_seq().contains(key@) ==> final(self).key_seq() == old(self).key_seq(),
            !old(self).key_seq().contains(key@) ==> final(self).key_seq() == old(
                self,
            ).key_seq().push(key@),
            !old(self).key_seq().contains(key@) ==> final(self).value_seq() == old(
                self,
            ).value_seq().push(value),
    {
        proof {
            self.lemma_view();
        }
        match self.find(key.as_str()) {
            Some(i) => {
                let ghost ks = self.key_seq();
                let ghost vs = self.value_seq();
                let ghost kk = key@;
                let (k, _old_v) = self.entries.remove(i);
                self.entries.insert(i, (k, value));
                assert(self.key_seq() =~= ks);
                assert(self.value_seq() =~= vs.update(i as int, value));
                proof {
                    self.lemma_view();
                }
                assert(self@ =~= old(self)@.insert(kk, value)) by {
                    assert forall|x: Seq<char>| #[trigger]
                        self@.contains_key(x) implies old(self)@.insert(kk, value).contains_key(x)
                        && self@[x] == old(self)@.insert(kk, value)[x] by {
                        let j = self.key_seq().index_of(x);
                        assert(self.key_seq()[j] == x);
                        if j == i as int {
                        } else {
                            assert(old(self).key_seq()[j] == x);
                        }
                    }
                    assert forall|x: Seq<char>| #[trigger]
                        old(self)@.insert(kk, value).contains_key(x) implies self@.contains_key(x) by {
                        if x == kk {
                            assert(self.key_seq()[i as int] == x);
                        } else {
                            let j = old(self).key_seq().index_of(x);
                            assert(self.key_seq()[j] == x);
                        }
                    }
                }
            },
            None => {
                let ghost kk = key@;
                self.entries.push((key, value));
                assert(self.key_seq() =~= old(self).key_seq().push(kk));
                assert(self.value_seq() =~= old(self).value_seq().push(value));
                proof {
                    self.lemma_view();
                }
                assert(self@ =~= old(self)@.insert(kk, value)) by {
                    let n = old(self).key_seq().len() as int;
                    assert(self.key_seq()[n] == kk);
                    assert forall|x: Seq<char>| #[trigger]
                        self@.contains_key(x) implies old(self)@.insert(kk, value).contains_key(x)
                        && self@[x] == old(self)@.insert(kk, value)[x] by {
                        let j = self.key_seq().index_of(x);
                        assert(self.key_seq()[j] == x);
                        if j < n {
                            assert(old(self).key_seq()[j] == x);
                        }
                    }
                    assert forall|x: Seq<char>| #[trigger]
                        old(self)@.insert(kk, value).contains_key(x) implies self@.contains_key(x) by {
                        if x == kk {
                        } else {
                            let j = old(self).key_seq().index_of(x);
                            assert(self.key_seq()[j] == x);
                        }
                    }
                }
            },
        }
    }

    /// Replace the value at position `i`, returning the previous value.
    pub fn replace_at(&mut self, i: usize, value: V) -> (r: V)
        requires
            old(self).wf(),
            i < old(self).key_seq().len(),
        ensures
            final(self).wf(),
            r == old(self).value_seq()[i as int],
            final(self).key_seq() == old(self).key_seq(),
            final(self).value_seq() == old(self).value_seq().update(i as int, value),
            final(self)@ == old(self)@.insert(old(self).key_seq()[i as int], value),
    {
        let ghost ks = self.key_seq();
        let ghost vs = self.value_seq();
        let (k, old_v) = self.entries.remove(i);
        self.entries.insert(i, (k, value));
        assert(self.key_seq() =~= ks);
        assert(self.value_seq() =~= vs.update(i as int, value));
        proof {
            self.lemma_view();
            old(self).lemma_view();
            let kk = ks[i as int];
            assert(self@ =~= old(self)@.insert(kk, value)) by {
                assert forall|x: Seq<char>| #[trigger]
                    self@.contains_key(x) implies old(self)@.insert(kk, value).contains_key(x)
                    && self@[x] == old(self)@.insert(kk, value)[x] by {
                    let j = self.key_seq().index_of(x);
                    assert(self.key_seq()[j] == x);
                    if j != i as int {
                        assert(old(self).key_seq()[j] == x);
                    }
                }
                assert forall|x: Seq<char>| #[trigger]
                    old(self)@.insert(kk, value).contains_key(x) implies self@.contains_key(x) by {
                    if x == kk {
                        assert(self.key_seq()[i as int] == x);
                    } else {
                        let j = old(self).key_seq().index_of(x);
                        assert(self.key_seq()[j] == x);
                    }
                }
            }
        }
        old_v
    }

    /// Remove `key`, returning its value if it was present. The other keys
    /// keep their order.
    pub fn remove(&mut self, key: &str) -> (r: Option<V>)
        requires
            old(self).wf(),
        ensures
            final(self).wf(),
            final(self)@ == old(self)@.remove(key@),
            r == old(self).lookup(key@),
            !old(self).key_seq().contains(key@) ==> final(self).key_seq() == old(self).key_seq(),
            old(self).key_seq().contains(key@) ==> final(self).key_seq() == old(
                self,
            ).key_seq().remove(old(self).key_seq().index_of(key@)),
    {
        proof {
            self.lemma_view();
        }
        match self.find(key) {
            Some(i) => {
                let ghost ks = self.key_seq();
                let ghost vs = self.value_seq();
                let ghost kk = key@;
                assert(ks.index_of(kk) == i as int) by {
                    let j = ks.index_of(kk);
                    assert(ks.contains(kk));
                    assert(ks[j] == kk);
                }
                let (_k, v) = self.entries.remove(i);
                assert(self.key_seq() =~= ks.remove(i as int));
                assert(self.value_seq() =~= vs.remove(i as int));
                proof {
                    self.lemma_view();
                    old(self).lemma_view();
                }
                assert(self@ =~= old(self)@.remove(kk)) by {
                    assert forall|x: Seq<char>| #[trigger]
                        self@.contains_key(x) implies old(self)@.remove(kk).contains_key(x)
                        && self@[x] == old(self)@.remove(kk)[x] by {
                        let j = self.key_seq().index_of(x);
                        assert(self.key_seq()[j] == x);
                        if j < i as int {
                            assert(old(self).key_seq()[j] == x);
                        } else {
                            assert(old(self).key_seq()[j + 1] == x);
                        }
                    }
                    assert forall|x: Seq<char>| #[trigger]
                        old(self)@.remove(kk).contains_key(x) implies self@.contains_key(x) by {
                        let j = old(self).key_seq().index_of(x);
                        assert(old(self).key_seq()[j] == x);
                        if j < i as int {
                            assert(self.key_seq()[j] == x);
                        } else {
                            assert(self.key_seq()[j - 1] == x);
                        }
                    }
                }
                Some(v)
            },
            None => {
                assert(self@ =~= old(self)@.remove(key@));
                None
            },
        }
    }

    /// Remove every key.
    pub fn clear(&mut self)
        ensures
            final(self).wf(),
            final(self).key_seq() == Seq::<Seq<char>>::empty(),
            final(self)@ == Map::<Seq<char>, V>::empty(),
    {
        self.entries.clear();
        assert(self.key_seq() =~= Seq::<Seq<char>>::empty());
        assert(self.value_seq() =~= Seq::<V>::empty());
        assert(self@ =~= Map::<Seq<char>, V>::empty());
    }

    /// The keys, in order.
    pub fn keys(&self) -> (r: Vec<String>)
        ensures
            r@.map_values(|s: String| s@) == self.key_seq(),
    {
        let mut r: Vec<String> = Vec::new();
        let mut i: usize = 0;
        while i < self.entries.len()
            invariant
                i <= self.entries@.len(),
                r@.map_values(|s: String| s@) == self.key_seq().take(i as int),
            decreases self.entries@.len() - i,
        {
            r.push(self.entries[i].0.clone());
            assert(self.key_seq().take(i as int + 1) =~= self.key_seq().take(i as int).push(
                self.entries@[i as int].0@,
            ));
            assert(r@.map_values(|s: String| s@) =~= self.key_seq().take(i as int + 1));
            i = i + 1;
        }
        assert(self.key_seq().take(i as int) =~= self.key_seq());
        r
    }
}


impl<T> StringMap<Vec<T>> {
    /// The items under `k`, or none if `k` is absent.
    pub open spec fn items(&self, k: Seq<char>) -> Seq<T> {
        if self@.contains_key(k) {
            self@[k]@
        } else {
            Seq::<T>::empty()
        }
    }

    /// Append `item` to the list under `key`, creating the list (as the last
    /// key) if `key` is absent.
    pub fn push_value(&mut self, key: &str, item: T)
        requires
            old(self).wf(),
        ensures
            final(self).wf(),
            final(self)@ == old(self)@.insert(key@, final(self)@[key@]),
            final(self).items(key@) == old(self).items(key@).push(item),
            old(self).key_seq().contains(key@) ==> final(self).key_seq() == old(self).key_seq(),
            !old(self).key_seq().contains(key@) ==> final(self).key_seq() == old(
                self,
            ).key_seq().push(key@),
    {
        proof {
            self.lemma_view();
        }
        match self.find(key) {
            Some(i) => {
                let mut v = self.replace_at(i, Vec::new());
                v.push(item);
                self.replace_at(i, v);
                proof {
                    self.lemma_view();
                    assert(self@ =~= old(self)@.insert(key@, self@[key@]));
                }
            },
            None => {
                let mut v = Vec::new();
                v.push(item);
                self.insert(key.to_owned(), v);
                assert(v@ =~= Seq::<T>::empty().push(item));
            },
        }
    }

    /// Replace the list under `key`, if present, by `items`; otherwise do
    /// nothing. Returns whether `key` was present.
    pub fn set_items(&mut self, key: &str, items: Vec<T>) -> (r: bool)
        requires
            old(self).wf(),
        ensures
            final(self).wf(),
            r == old(self)@.contains_key(key@),
            r ==> final(self)@ == old(self)@.insert(key@, items),
            !r ==> final(self)@ == old(self)@,
            final(self).key_seq() == old(self).key_seq(),
    {
        proof {
            self.lemma_view();
        }
        match self.find(key) {
            Some(i) => {
                self.replace_at(i, items);
                true
            },
            None => false,
        }
    }
}


impl StringMap<String> {
    /// A copy of the map.
    pub fn clone_strings(&self) -> (r: Self)
        ensures
            r.key_seq() == self.key_seq(),
            r.value_seq() == self.value_seq(),
            r@ == self@,
    {
        let mut entries: Vec<(String, String)> = Vec::new();
        let mut i: usize = 0;
        while i < self.entries.len()
            invariant
                i <= self.entries@.len(),
                entries@ == self.entries@.take(i as int),
            decreases self.entries@.len() - i,
        {
            let k = self.entries[i].0.clone();
            let v = self.entries[i].1.clone();
            entries.push((k, v));
            assert(entries@ =~= self.entries@.take(i as int + 1));
            i = i + 1;
        }
        assert(entries@ =~= self.entries@);
        let r = StringMap { entries };
        assert(r.key_seq() =~= self.key_seq());
        assert(r.value_seq() =~= self.value_seq());
        assert(r@ =~= self@);
        r
    }
}

} // verus!
