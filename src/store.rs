use vstd::prelude::*;

verus! {

/// The key-value mapping: at most one entry per key, kept in insertion order.
pub struct Store<B> {
    entries: Vec<(String, B)>,
    model: Ghost<Map<Seq<char>, B>>,
}

impl<B> View for Store<B> {
    type V = Map<Seq<char>, B>;

    closed spec fn view(&self) -> Map<Seq<char>, B> {
        self.model@
    }
}

impl<B> Store<B> {
    /// The keys of the store, in the order in which they were first inserted.
    pub closed spec fn keys(&self) -> Seq<Seq<char>> {
        self.entries@.map_values(|e: (String, B)| e.0@)
    }

    /// Each key occurs once, and the entries agree with the mapping.
    pub closed spec fn wf(&self) -> bool {
        &&& self.keys().no_duplicates()
        &&& self.model@.dom() == self.keys().to_set()
        &&& forall|i: int|
            0 <= i < self.entries.len() ==> self.model@[#[trigger] self.entries@[i].0@]
                == self.entries@[i].1
    }

    /// The key sequence lists the keys of the mapping, each once.
    pub proof fn lemma_keys(&self)
        requires
            self.wf(),
        ensures
            self.keys().no_duplicates(),
            self.keys().to_set() == self@.dom(),
            self.keys().len() == self@.len(),
            self@.dom().finite(),
    {
        self.keys().unique_seq_to_set();
    }

    /// An empty store.
    pub fn new() -> (r: Self)
        ensures
            r.wf(),
            r@ == Map::<Seq<char>, B>::empty(),
            r.keys() == Seq::<Seq<char>>::empty(),
    {
        let r = Store { entries: Vec::new(), model: Ghost(Map::empty()) };
        assert(r.keys() =~= Seq::<Seq<char>>::empty());
        assert(r.model@.dom() =~= r.keys().to_set());
        r
    }

    /// Number of entries.
    pub fn len(&self) -> (r: usize)
        requires
            self.wf(),
        ensures
            r == self@.len(),
    {
        proof {
            self.lemma_keys();
        }
        self.entries.len()
    }

    /// Position of `key` in the key sequence, if it is present.
    fn find(&self, key: &String) -> (r: Option<usize>)
        requires
            self.wf(),
        ensures
            match r {
                Some(i) => i < self.keys().len() && self.keys()[i as int] == key@,
                None => !self@.contains_key(key@),
            },
    {
        let mut i: usize = 0;
        while i < self.entries.len()
            invariant
                i <= self.entries.len(),
                forall|j: int| 0 <= j < i ==> self.keys()[j] != key@,
            decreases self.entries.len() - i,
        {
            if self.entries[i].0 == *key {
                return Some(i);
            }
            i = i + 1;
        }
        proof {
            if self.keys().to_set().contains(key@) {
                let j = choose|j: int| 0 <= j < self.keys().len() && self.keys()[j] == key@;
                assert(self.keys()[j] != key@);
            }
        }
        None
    }

    /// Whether `key` has an entry.
    pub fn contains_key(&self, key: &String) -> (r: bool)
        requires
            self.wf(),
        ensures
            r == self@.contains_key(key@),
    {
        match self.find(key) {
            Some(i) => {
                assert(self.keys().to_set().contains(self.keys()[i as int]));
                true
            },
            None => false,
        }
    }
    /// Inserts `key` with `value`, replacing any earlier value of that key.
    pub fn insert(&mut self, key: String, value: B)
        requires
            old(self).wf(),
        ensures
            final(self).wf(),
            final(self)@ == old(self)@.insert(key@, value),
            old(self)@.contains_key(key@) ==> final(self).keys() == old(self).keys(),
            !old(self)@.contains_key(key@) ==> final(self).keys() == old(self).keys().push(
                key@,
            ),
    {
        let ghost pre = self.keys();
        let ghost k = key@;
        let found = self.find(&key);
        proof {
            self.model@ = self.model@.insert(k, value);
        }
        match found {
            Some(i) => {
                self.entries.set(i, (key, value));
                assert(self.keys() =~= pre);
                assert(self.model@.dom() =~= self.keys().to_set());
                assert forall|j: int| 0 <= j < self.entries.len() implies self.model@[
                    #[trigger] self.entries@[j].0@] == self.entries@[j].1 by {
                    if j != i {
                        assert(pre[j] != pre[i as int]);
                    }
                }
            },
            None => {
                self.entries.push((key, value));
                assert(self.keys() =~= pre.push(k));
                assert forall|x| pre.push(k).contains(x) <==> pre.contains(x) || x == k by {
                    if pre.contains(x) {
                        let j = choose|j: int| 0 <= j < pre.len() && pre[j] == x;
                        assert(pre.push(k)[j] == x);
                    }
                    if x == k {
                        assert(pre.push(k)[pre.len() as int] == x);
                    }
                }
                assert(self.model@.dom() =~= self.keys().to_set());
                assert forall|j: int| 0 <= j < self.entries.len() implies self.model@[
                    #[trigger] self.entries@[j].0@] == self.entries@[j].1 by {
                    if j < pre.len() {
                        assert(pre.contains(pre[j]));
                    }
                }
            },
        }
    }

    /// The keys, in the order in which they were first inserted.
    pub fn key_list(&self) -> (r: Vec<String>)
        requires
            self.wf(),
        ensures
            r@.map_values(|s: String| s@) == self.keys(),
    {
        let mut r: Vec<String> = Vec::new();
        let mut i: usize = 0;
        while i < self.entries.len()
            invariant
                i <= self.entries.len(),
                r.len() == i,
                forall|j: int| 0 <= j < i ==> #[trigger] r@[j]@ == self.entries@[j].0@,
            decreases self.entries.len() - i,
        {
            r.push(self.entries[i].0.clone());
            i = i + 1;
        }
        assert(r@.map_values(|s: String| s@) =~= self.keys());
        r
    }

    /// Removes the entry at position `idx` of the key sequence.
    pub fn remove_nth(&mut self, idx: usize)
        requires
            old(self).wf(),
            idx < old(self).keys().len(),
        ensures
            final(self).wf(),
            final(self)@ == old(self)@.remove(old(self).keys()[idx as int]),
            final(self).keys() == old(self).keys().remove(idx as int),
    {
        let ghost pre = self.keys();
        let ghost pre_entries = self.entries@;
        let ghost k = pre[idx as int];
        proof {
            self.model@ = self.model@.remove(k);
        }
        self.entries.remove(idx);
        assert forall|j: int| 0 <= j < self.entries.len() implies self.model@[
            #[trigger] self.entries@[j].0@] == self.entries@[j].1 by {
            if j < idx {
                assert(self.entries@[j] == pre_entries[j]);
                assert(pre[j] != k);
            } else {
                assert(self.entries@[j] == pre_entries[j + 1]);
                assert(pre[j + 1] != k);
            }
        }
        assert(self.keys() =~= pre.remove(idx as int));
        assert(self.model@.dom() =~= self.keys().to_set()) by {
            assert forall|x| pre.remove(idx as int).contains(x) <==> pre.contains(x) && x != k by {
                if pre.contains(x) && x != k {
                    let j = choose|j: int| 0 <= j < pre.len() && pre[j] == x;
                    if j < idx {
                        assert(pre.remove(idx as int)[j] == x);
                    } else {
                        assert(pre.remove(idx as int)[j - 1] == x);
                    }
                }
                if pre.remove(idx as int).contains(x) {
                    let j = choose|j: int| 0 <= j < pre.len() - 1 && pre.remove(idx as int)[j] == x;
                    if j < idx {
                        assert(pre[j] == x);
                    } else {
                        assert(pre[j + 1] == x);
                    }
                }
            }
        }
    }

    /// Removes the entry of `key`, if there is one.
    pub fn remove(&mut self, key: &String)
        requires
            old(self).wf(),
        ensures
            final(self).wf(),
            final(self)@ == old(self)@.remove(key@),
    {
        match self.find(key) {
            Some(i) => {
                self.remove_nth(i);
            },
            None => {
                assert(self@.remove(key@) =~= self@);
            },
        }
    }
}

/// `copy` holds the keys of `orig` in the same order, each with a copy of its value.
pub open spec fn copy_of<B: Clone>(copy: Store<B>, orig: Store<B>) -> bool {
    &&& copy.keys() == orig.keys()
    &&& copy@.dom() == orig@.dom()
    &&& forall|k| #[trigger] copy@.contains_key(k) ==> cloned(orig@[k], copy@[k])
}

/// `r` is what a lookup of `key` in `s` returns: a copy of its value, or `None`.
pub open spec fn lookup_of<B: Clone>(r: Option<B>, s: Map<Seq<char>, B>, key: Seq<char>) -> bool {
    &&& r is Some <==> s.contains_key(key)
    &&& r matches Some(v) ==> cloned(s[key], v)
}

impl<B: Clone> Store<B> {
    /// The value of `key`, copied out of the store, or `None` where `key` has no entry.
    pub fn get(&self, key: &String) -> (r: Option<B>)
        requires
            self.wf(),
        ensures
            lookup_of(r, self@, key@),
    {
        match self.find(key) {
            Some(i) => {
                assert(self.keys().to_set().contains(self.keys()[i as int]));
                Some(self.entries[i].1.clone())
            },
            None => None,
        }
    }

    /// An independent copy of the store: the same keys in the same order, each
    /// value copied.
    pub fn snapshot(&self) -> (r: Store<B>)
        requires
            self.wf(),
        ensures
            r.wf(),
            copy_of(r, *self),
    {
        let mut entries: Vec<(String, B)> = Vec::new();
        let mut i: usize = 0;
        while i < self.entries.len()
            invariant
                self.wf(),
                i <= self.entries.len(),
                entries.len() == i,
                forall|j: int|
                    0 <= j < i ==> #[trigger] entries@[j].0@ == self.entries@[j].0@ && cloned(
                        self.entries@[j].1,
                        entries@[j].1,
                    ),
            decreases self.entries.len() - i,
        {
            let key = self.entries[i].0.clone();
            let value = self.entries[i].1.clone();
            entries.push((key, value));
            i = i + 1;
        }
        let ghost m = Map::new(
            |k: Seq<char>| self@.contains_key(k),
            |k: Seq<char>| entries@[self.keys().index_of(k)].1,
        );
        let r = Store { entries, model: Ghost(m) };
        assert(r.keys() =~= self.keys());
        assert(m.dom() =~= self@.dom());
        assert forall|j: int| 0 <= j < r.entries.len() implies m[#[trigger] r.entries@[j].0@]
            == r.entries@[j].1 by {
            let k = self.keys()[j];
            assert(self.keys().to_set().contains(k));
            self.keys().index_of_first_ensures(k);
        }
        assert forall|k| #[trigger] r@.contains_key(k) implies cloned(self@[k], r@[k]) by {
            let j = self.keys().index_of(k);
            self.keys().index_of_first_ensures(k);
        }
        r
    }
}

} // verus!
