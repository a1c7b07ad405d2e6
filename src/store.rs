use vstd::prelude::*;

verus! {

/// The in-memory key-value mapping, shared by every session.
///
/// Entries are kept as a list of pairs with distinct keys; `model` is the
/// mapping they stand for.
pub struct Database {
    entries: Vec<(String, String)>,
    persist_log: String,
    model: Ghost<Map<Seq<char>, Seq<char>>>,
}

impl View for Database {
    type V = Map<Seq<char>, Seq<char>>;

    closed spec fn view(&self) -> Map<Seq<char>, Seq<char>> {
        self.model@
    }
}

impl Database {
    /// Keys are distinct, and the entries hold exactly the pairs of the model.
    pub closed spec fn wf(&self) -> bool {
        &&& forall|i: int, j: int|
            0 <= i < j < self.entries@.len() ==> self.entries@[i].0@ != self.entries@[j].0@
        &&& forall|i: int|
            #![trigger self.entries@[i]]
            0 <= i < self.entries@.len() ==> self.model@.contains_key(self.entries@[i].0@)
                && self.model@[self.entries@[i].0@] == self.entries@[i].1@
        &&& forall|k: Seq<char>|
            self.model@.contains_key(k) ==> exists|i: int|
                0 <= i < self.entries@.len() && #[trigger] self.entries@[i].0@ == k
    }

    /// The path of the persistence log this store is paired with.
    pub closed spec fn log_path(&self) -> Seq<char> {
        self.persist_log@
    }

    /// An empty store whose mutations are to be recorded in `persist_log`.
    pub fn new(persist_log: String) -> (r: Database)
        ensures
            r.wf(),
            r@ == Map::<Seq<char>, Seq<char>>::empty(),
            r.log_path() == persist_log@,
    {
        Database { entries: Vec::new(), persist_log, model: Ghost(Map::empty()) }
    }

    /// The path of the persistence log.
    pub fn persist_log(&self) -> (r: &String)
        ensures
            r@ == self.log_path(),
    {
        &self.persist_log
    }

    fn find(&self, key: &String) -> (r: Option<usize>)
        requires
            self.wf(),
        ensures
            match r {
                Some(i) => i < self.entries@.len() && self.entries@[i as int].0@ == key@,
                None => !self@.contains_key(key@),
            },
    {
        let mut i: usize = 0;
        while i < self.entries.len()
            invariant
                self.wf(),
                i <= self.entries@.len(),
                forall|j: int| 0 <= j < i ==> self.entries@[j].0@ != key@,
            decreases self.entries@.len() - i,
        {
            if self.entries[i].0 == *key {
                return Some(i);
            }
            i = i + 1;
        }
        None
    }

    /// The value stored under `key`.
    pub fn get(&self, key: &String) -> (r: Result<String, String>)
        requires
            self.wf(),
        ensures
            match r {
                Ok(v) => self@.contains_key(key@) && v@ == self@[key@],
                Err(e) => !self@.contains_key(key@) && e@ == "Value not found"@,
            },
    {
        match self.find(key) {
            Some(i) => Ok(self.entries[i].1.clone()),
            None => Err(String::from_str("Value not found")),
        }
    }

    /// Removes `key` if it is present; an absent key is no error.
    pub fn remove(&mut self, key: &String)
        requires
            old(self).wf(),
        ensures
            final(self).wf(),
            final(self)@ == old(self)@.remove(key@),
            final(self).log_path() == old(self).log_path(),
    {
        match self.find(key) {
            None => {
                proof {
                    assert(self.model@.remove(key@) =~= self.model@);
                }
            },
            Some(i) => {
                let ghost old_entries = self.entries@;
                self.entries.remove(i);
                self.model = Ghost(self.model@.remove(key@));
                assert forall|j: int|
                    #![trigger self.entries@[j]]
                    0 <= j < self.entries@.len() implies self.model@.contains_key(
                        self.entries@[j].0@,
                    ) && self.model@[self.entries@[j].0@] == self.entries@[j].1@ by {
                    if j < i {
                        assert(self.entries@[j] == old_entries[j]);
                    } else {
                        assert(self.entries@[j] == old_entries[j + 1]);
                    }
                }
                assert forall|k: Seq<char>| self.model@.contains_key(k) implies exists|j: int|
                    0 <= j < self.entries@.len() && #[trigger] self.entries@[j].0@ == k by {
                    let j = choose|j: int| 0 <= j < old_entries.len() && #[trigger] old_entries[j].0@ == k;
                    if j < i {
                        assert(self.entries@[j] == old_entries[j]);
                    } else {
                        assert(j != i);
                        assert(self.entries@[j - 1] == old_entries[j]);
                    }
                }
                assert forall|a: int, b: int|
                    0 <= a < b < self.entries@.len() implies self.entries@[a].0@ != self.entries@[b].0@ by {
                    let a2 = if a < i { a } else { a + 1 };
                    let b2 = if b < i { b } else { b + 1 };
                    assert(self.entries@[a] == old_entries[a2]);
                    assert(self.entries@[b] == old_entries[b2]);
                }
            },
        }
    }

    /// Stores `value` under `key`, replacing any earlier value.
    pub fn insert(&mut self, key: String, value: String)
        requires
            old(self).wf(),
        ensures
            final(self).wf(),
            final(self)@ == old(self)@.insert(key@, value@),
            final(self).log_path() == old(self).log_path(),
    {
        self.remove(&key);
        let ghost mid = self.entries@;
        let ghost mid_model = self.model@;
        let ghost k = key@;
        let ghost v = value@;
        self.entries.push((key, value));
        self.model = Ghost(self.model@.insert(k, v));
        assert(self.entries@[mid.len() as int].0@ == k);
        assert forall|j: int|
            #![trigger self.entries@[j]]
            0 <= j < self.entries@.len() implies self.model@.contains_key(self.entries@[j].0@)
                && self.model@[self.entries@[j].0@] == self.entries@[j].1@ by {
            if j < mid.len() {
                assert(self.entries@[j] == mid[j]);
            }
        }
        assert forall|k2: Seq<char>| self.model@.contains_key(k2) implies exists|j: int|
            0 <= j < self.entries@.len() && #[trigger] self.entries@[j].0@ == k2 by {
            if k2 != k {
                let j = choose|j: int| 0 <= j < mid.len() && #[trigger] mid[j].0@ == k2;
                assert(self.entries@[j] == mid[j]);
            }
        }
        assert forall|a: int, b: int|
            0 <= a < b < self.entries@.len() implies self.entries@[a].0@ != self.entries@[b].0@ by {
            assert(self.entries@[a] == mid[a]);
            if b < mid.len() {
                assert(self.entries@[b] == mid[b]);
            } else {
                assert(mid_model.contains_key(mid[a].0@));
            }
        }
    }
}

} // verus!
