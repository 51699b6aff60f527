//! A small in-memory key-value store of byte strings.
use vstd::prelude::*;

use vstd::string::StringExecFns;

use crate::registry::{keyed_map, keys_distinct, lemma_keyed_index, lemma_keyed_push, lemma_keyed_remove};

verus! {

/// One stored entry.
pub struct StoredValue {
    pub key: String,
    pub value: Vec<u8>,
}

/// An entry's key.
pub open spec fn stored_key() -> spec_fn(StoredValue) -> Seq<char> {
    |e: StoredValue| e.key@
}

/// Byte strings stored under string keys.
pub struct Storage {
    data: Vec<StoredValue>,
}

impl Storage {
    /// What is stored: each key with its bytes.
    pub closed spec fn view(&self) -> Map<Seq<char>, Seq<u8>> {
        keyed_map(self.data@, stored_key()).map_values(|e: StoredValue| e.value@)
    }

    pub closed spec fn wf(&self) -> bool {
        keys_distinct(self.data@, stored_key())
    }

    /// An empty store.
    pub fn new() -> (r: Storage)
        ensures
            r.wf(),
            r.view().is_empty(),
    {
        let r = Storage { data: Vec::new() };
        assert(r.view() =~= Map::empty());
        r
    }

    fn find(&self, key: &str) -> (r: Option<usize>)
        requires
            self.wf(),
        ensures
            match r {
                Some(i) => i < self.data@.len() && self.data@[i as int].key@ == key@,
                None => !self.view().contains_key(key@),
            },
    {
        let wanted = String::from_str(key);
        let mut i: usize = 0;
        while i < self.data.len()
            invariant
                self.wf(),
                wanted@ == key@,
                0 <= i <= self.data@.len(),
                forall|j: int| 0 <= j < i ==> self.data@[j].key@ != key@,
            decreases self.data@.len() - i,
        {
            if self.data[i].key == wanted {
                return Some(i);
            }
            i = i + 1;
        }
        None
    }

    /// Stores `value` under `key`, replacing what was there.
    pub fn insert(&mut self, key: String, value: Vec<u8>)
        requires
            old(self).wf(),
        ensures
            final(self).wf(),
            final(self).view() == old(self).view().insert(key@, value@),
    {
        let ghost k = key@;
        let ghost v = value@;
        match self.find(key.as_str()) {
            Some(i) => {
                proof {
                    lemma_keyed_remove(self.data@, stored_key(), i as int);
                }
                self.data.remove(i);
            },
            None => {},
        }
        let ghost s0 = self.data@;
        let entry = StoredValue { key, value };
        proof {
            lemma_keyed_push(s0, stored_key(), entry);
        }
        self.data.push(entry);
        proof {
            assert(self.data@ == s0.push(entry));
            assert(self.view() =~= old(self).view().insert(k, v));
        }
    }

    /// The bytes stored under `key`, if any.
    pub fn get(&self, key: &str) -> (r: Option<&Vec<u8>>)
        requires
            self.wf(),
        ensures
            match r {
                Some(v) => self.view().contains_key(key@) && v@ == self.view()[key@],
                None => !self.view().contains_key(key@),
            },
    {
        match self.find(key) {
            Some(i) => {
                proof {
                    lemma_keyed_index(self.data@, stored_key(), i as int);
                }
                Some(&self.data[i].value)
            },
            None => None,
        }
    }

    /// Takes out and gives back the bytes stored under `key`, if any.
    pub fn remove(&mut self, key: &str) -> (r: Option<Vec<u8>>)
        requires
            old(self).wf(),
        ensures
            final(self).wf(),
            final(self).view() == old(self).view().remove(key@),
            match r {
                Some(v) => old(self).view().contains_key(key@) && v@ == old(self).view()[key@],
                None => !old(self).view().contains_key(key@),
            },
    {
        match self.find(key) {
            Some(i) => {
                proof {
                    lemma_keyed_index(self.data@, stored_key(), i as int);
                    lemma_keyed_remove(self.data@, stored_key(), i as int);
                }
                let entry = self.data.remove(i);
                proof {
                    assert(self.view() =~= old(self).view().remove(key@));
                }
                Some(entry.value)
            },
            None => {
                assert(self.view() =~= old(self).view().remove(key@));
                None
            },
        }
    }
}

} // verus!
