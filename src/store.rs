use vstd::prelude::*;

use crate::model::{lookup, opt_view, StoreMap};

verus! {

/// An in-memory mapping from key to value, each key held at most once.
pub struct KeyValueStore {
    entries: Vec<(String, String)>,
    contents: Ghost<StoreMap>,
}

impl View for KeyValueStore {
    type V = StoreMap;

    closed spec fn view(&self) -> StoreMap {
        self.contents@
    }
}

impl KeyValueStore {
    /// The entries hold each key once, and hold exactly the abstract mapping.
    pub closed spec fn wf(&self) -> bool {
        &&& forall|i: int, j: int|
            0 <= i < self.entries@.len() && 0 <= j < self.entries@.len() && i != j
                ==> #[trigger] self.entries@[i].0@ != #[trigger] self.entries@[j].0@
        &&& forall|i: int|
            0 <= i < self.entries@.len() ==> {
                &&& self.contents@.contains_key(#[trigger] self.entries@[i].0@)
                &&& self.contents@[self.entries@[i].0@] == self.entries@[i].1@
            }
        &&& forall|k: Seq<char>|
            #[trigger] self.contents@.contains_key(k) ==> exists|i: int|
                0 <= i < self.entries@.len() && #[trigger] self.entries@[i].0@ == k
    }

    /// Creates an empty store.
    pub fn new() -> (r: Self)
        ensures
            r.wf(),
            r@ == Map::<Seq<char>, Seq<char>>::empty(),
    {
        KeyValueStore { entries: Vec::new(), contents: Ghost(Map::empty()) }
    }

    /// The position of `key` among the entries, if it is there.
    fn find(&self, key: &String) -> (r: Option<usize>)
        requires
            self.wf(),
        ensures
            match r {
                Some(i) => i < self.entries@.len() && self.entries@[i as int].0@ == key@,
                None => !self@.contains_key(key@),
            },
    {
        let mut i: usize = 0;
        while i < self.entries.len()
            invariant
                i <= self.entries@.len(),
                forall|j: int| 0 <= j < i ==> #[trigger] self.entries@[j].0@ != key@,
            decreases self.entries@.len() - i,
        {
            if self.entries[i].0 == *key {
                return Some(i);
            }
            i = i + 1;
        }
        None
    }

    /// Reads the value stored under `key`; `None` when the key is absent.
    pub fn get(&self, key: &String) -> (r: Option<String>)
        requires
            self.wf(),
        ensures
            opt_view(r) == lookup(self@, key@),
    {
        match self.find(key) {
            Some(i) => Some(self.entries[i].1.clone()),
            None => None,
        }
    }
    /// Stores `value` under `key`, replacing any value it held, and returns
    /// the value just stored.
    pub fn put(&mut self, key: String, value: String) -> (r: String)
        requires
            old(self).wf(),
        ensures
            final(self).wf(),
            final(self)@ == old(self)@.insert(key@, value@),
            r@ == value@,
    {
        let echo = value.clone();
        let ghost k = key@;
        let ghost v = value@;
        let ghost pos: int;
        match self.find(&key) {
            Some(i) => {
                self.entries[i] = (key, value);
                proof {
                    pos = i as int;
                }
            },
            None => {
                self.entries.push((key, value));
                proof {
                    pos = self.entries@.len() - 1;
                }
            },
        }
        self.contents = Ghost(self.contents@.insert(k, v));
        proof {
            assert(self.entries@[pos].0@ == k);
            assert forall|k2: Seq<char>| #[trigger] self.contents@.contains_key(k2) implies exists|
                j: int,
            | 0 <= j < self.entries@.len() && #[trigger] self.entries@[j].0@ == k2 by {
                if k2 != k {
                    let j = choose|j: int|
                        0 <= j < old(self).entries@.len() && #[trigger] old(self).entries@[j].0@
                            == k2;
                    assert(self.entries@[j].0@ == k2);
                }
            }
        }
        echo
    }
    /// Removes `key` and returns the value it held; `None`, with the store
    /// unchanged, when the key is absent.
    pub fn delete(&mut self, key: &String) -> (r: Option<String>)
        requires
            old(self).wf(),
        ensures
            final(self).wf(),
            final(self)@ == old(self)@.remove(key@),
            opt_view(r) == lookup(old(self)@, key@),
    {
        match self.find(key) {
            Some(i) => {
                let ghost before = self.entries@;
                let (_, value) = self.entries.swap_remove(i);
                self.contents = Ghost(self.contents@.remove(key@));
                proof {
                    let last = before.len() - 1;
                    assert forall|j: int| 0 <= j < self.entries@.len() implies #[trigger] self.entries@[j]
                        == before[if j == i { last } else { j }] by {}
                    assert forall|k2: Seq<char>| #[trigger] self.contents@.contains_key(k2) implies exists|
                        j: int,
                    | 0 <= j < self.entries@.len() && #[trigger] self.entries@[j].0@ == k2 by {
                        let j = choose|j: int| 0 <= j < before.len() && #[trigger] before[j].0@ == k2;
                        assert(j != i);
                        if j == last {
                            assert(self.entries@[i as int].0@ == k2);
                        } else {
                            assert(self.entries@[j].0@ == k2);
                        }
                    }
                }
                Some(value)
            },
            None => {
                proof {
                    assert(self.contents@.remove(key@) =~= self.contents@);
                }
                None
            },
        }
    }
}

} // verus!
