//! Maps whose keys are strings.

use crate::text::same;
use vstd::prelude::*;

verus! {

broadcast use vstd::string::group_string_axioms;

/// A map from strings to values, as a list of entries with distinct keys.
#[derive(Debug)]
pub struct TextMap<V> {
    entries: Vec<(String, V)>,
}

/// `key` stands at `at`.
spec fn key_at<V>(entries: Seq<(String, V)>, key: Seq<char>, at: int) -> bool {
    0 <= at < entries.len() && entries[at].0@ == key
}

impl<V> TextMap<V> {
    /// No two entries have the same key.
    pub closed spec fn wf(&self) -> bool {
        forall|i: int, j: int|
            0 <= i < j < self.entries@.len() ==> (#[trigger] self.entries@[i]).0@ != (
            #[trigger] self.entries@[j]).0@
    }

    /// The map.
    pub closed spec fn view(&self) -> Map<Seq<char>, V> {
        Map::new(
            |key: Seq<char>| exists|i: int| key_at(self.entries@, key, i),
            |key: Seq<char>| self.entries@[choose|i: int| key_at(self.entries@, key, i)].1,
        )
    }

    proof fn entry_is_mapped(&self, i: int)
        requires
            self.wf(),
            0 <= i < self.entries@.len(),
        ensures
            self.view().contains_key(self.entries@[i].0@),
            self.view()[self.entries@[i].0@] == self.entries@[i].1,
    {
        let key = self.entries@[i].0@;
        assert(key_at(self.entries@, key, i));
        let j = choose|j: int| key_at(self.entries@, key, j);
        assert(j == i) by {
            if j < i {
                assert(self.entries@[j].0@ != self.entries@[i].0@);
            } else if i < j {
                assert(self.entries@[i].0@ != self.entries@[j].0@);
            }
        }
    }

    /// The empty map.
    pub fn new() -> (r: TextMap<V>)
        ensures
            r.wf(),
            r.view() == Map::<Seq<char>, V>::empty(),
    {
        let r: TextMap<V> = TextMap { entries: Vec::new() };
        assert(r.view() == Map::<Seq<char>, V>::empty());
        r
    }

    fn position(&self, key: &str) -> (r: Option<usize>)
        requires
            self.wf(),
        ensures
            match r {
                Some(i) => key_at(self.entries@, key@, i as int),
                None => !self.view().contains_key(key@),
            },
    {
        let mut i: usize = 0;
        while i < self.entries.len()
            invariant
                i <= self.entries@.len(),
                forall|j: int| 0 <= j < i ==> !key_at(self.entries@, key@, j),
            decreases self.entries@.len() - i,
        {
            if same(self.entries[i].0.as_str(), key) {
                return Some(i);
            }
            i = i + 1;
        }
        None
    }

    /// Whether a key is mapped.
    pub fn contains_key(&self, key: &str) -> (r: bool)
        requires
            self.wf(),
        ensures
            r == self.view().contains_key(key@),
    {
        match self.position(key) {
            Some(i) => {
                proof {
                    self.entry_is_mapped(i as int);
                }
                true
            },
            None => false,
        }
    }

    /// The value of a key.
    pub fn get(&self, key: &str) -> (r: Option<&V>)
        requires
            self.wf(),
        ensures
            match r {
                Some(value) => self.view().contains_key(key@) && self.view()[key@] == *value,
                None => !self.view().contains_key(key@),
            },
    {
        match self.position(key) {
            Some(i) => {
                proof {
                    self.entry_is_mapped(i as int);
                }
                Some(&self.entries[i].1)
            },
            None => None,
        }
    }

    /// Maps a key to a value, in place of the one it had.
    pub fn insert(&mut self, key: &str, value: V)
        requires
            old(self).wf(),
        ensures
            final(self).wf(),
            final(self).view() == old(self).view().insert(key@, value),
    {
        match self.position(key) {
            Some(i) => {
                let ghost before = *self;
                self.entries.set(i, (key.to_owned(), value));
                proof {
                    let after = *self;
                    assert forall|k: Seq<char>|
                        after.view().contains_key(k) == before.view().insert(
                            key@,
                            value,
                        ).contains_key(k) by {
                        if after.view().contains_key(k) {
                            let j = choose|j: int| key_at(after.entries@, k, j);
                            assert(key_at(before.entries@, k, j) || k == key@);
                        }
                        if before.view().contains_key(k) {
                            let j = choose|j: int| key_at(before.entries@, k, j);
                            assert(key_at(after.entries@, k, j));
                        }
                        assert(key_at(after.entries@, key@, i as int));
                    }
                    assert forall|k: Seq<char>| #[trigger]
                        after.view().contains_key(k) implies after.view()[k]
                        == before.view().insert(key@, value)[k] by {
                        let j = choose|j: int| key_at(after.entries@, k, j);
                        after.entry_is_mapped(j);
                        after.entry_is_mapped(i as int);
                        before.entry_is_mapped(j);
                    }
                    assert(after.view() == before.view().insert(key@, value));
                }
            },
            None => {
                let ghost before = *self;
                self.entries.push((key.to_owned(), value));
                proof {
                    let after = *self;
                    let n = before.entries@.len() as int;
                    assert forall|i: int, j: int| 0 <= i < j < after.entries@.len() implies (
                    #[trigger] after.entries@[i]).0@ != (#[trigger] after.entries@[j]).0@ by {
                        if j == n {
                            assert(!key_at(before.entries@, key@, i)) by {
                                if key_at(before.entries@, key@, i) {
                                    before.entry_is_mapped(i);
                                }
                            }
                        } else {
                            assert(before.entries@[i].0@ != before.entries@[j].0@);
                        }
                    }
                    assert forall|k: Seq<char>|
                        after.view().contains_key(k) == before.view().insert(
                            key@,
                            value,
                        ).contains_key(k) by {
                        if after.view().contains_key(k) {
                            let j = choose|j: int| key_at(after.entries@, k, j);
                            assert(key_at(before.entries@, k, j) || k == key@);
                        }
                        if before.view().contains_key(k) {
                            let j = choose|j: int| key_at(before.entries@, k, j);
                            assert(key_at(after.entries@, k, j));
                        }
                        assert(key_at(after.entries@, key@, n));
                    }
                    assert forall|k: Seq<char>| #[trigger]
                        after.view().contains_key(k) implies after.view()[k]
                        == before.view().insert(key@, value)[k] by {
                        let j = choose|j: int| key_at(after.entries@, k, j);
                        after.entry_is_mapped(j);
                        if j < n {
                            before.entry_is_mapped(j);
                            after.entry_is_mapped(n);
                        }
                    }
                    assert(after.view() == before.view().insert(key@, value));
                }
            },
        }
    }

    /// Unmaps a key.
    pub fn remove(&mut self, key: &str) -> (r: Option<V>)
        requires
            old(self).wf(),
        ensures
            final(self).wf(),
            final(self).view() == old(self).view().remove(key@),
            r == (if old(self).view().contains_key(key@) {
                Some(old(self).view()[key@])
            } else {
                None
            }),
    {
        match self.position(key) {
            Some(i) => {
                let ghost before = *self;
                let (_, value): (String, V) = self.entries.remove(i);
                proof {
                    let after = *self;
                    before.entry_is_mapped(i as int);
                    assert forall|a: int, b: int| 0 <= a < b < after.entries@.len() implies (
                    #[trigger] after.entries@[a]).0@ != (#[trigger] after.entries@[b]).0@ by {
                        let x = if a < i {
                            a
                        } else {
                            a + 1
                        };
                        let y = if b < i {
                            b
                        } else {
                            b + 1
                        };
                        assert(before.entries@[x].0@ != before.entries@[y].0@);
                    }
                    assert forall|k: Seq<char>|
                        after.view().contains_key(k) == before.view().remove(key@).contains_key(
                            k,
                        ) by {
                        if after.view().contains_key(k) {
                            let j = choose|j: int| key_at(after.entries@, k, j);
                            let x = if j < i {
                                j
                            } else {
                                j + 1
                            };
                            assert(key_at(before.entries@, k, x));
                            assert(k != key@) by {
                                assert(before.entries@[x].0@ != before.entries@[i as int].0@);
                            }
                        }
                        if before.view().remove(key@).contains_key(k) {
                            let x = choose|x: int| key_at(before.entries@, k, x);
                            let j = if x < i {
                                x
                            } else {
                                x - 1
                            };
                            assert(key_at(after.entries@, k, j));
                        }
                    }
                    assert forall|k: Seq<char>| #[trigger]
                        after.view().contains_key(k) implies after.view()[k]
                        == before.view().remove(key@)[k] by {
                        let j = choose|j: int| key_at(after.entries@, k, j);
                        let x = if j < i {
                            j
                        } else {
                            j + 1
                        };
                        after.entry_is_mapped(j);
                        before.entry_is_mapped(x);
                    }
                    assert(after.view() == before.view().remove(key@));
                }
                Some(value)
            },
            None => {
                assert(self.view().remove(key@) == self.view());
                None
            },
        }
    }

    /// Every key, in some order and none twice.
    pub fn keys(&self) -> (r: Vec<String>)
        requires
            self.wf(),
        ensures
            r.deep_view().no_duplicates(),
            forall|key: Seq<char>|
                self.view().contains_key(key) <==> #[trigger] r.deep_view().contains(key),
    {
        let mut r: Vec<String> = Vec::new();
        let mut i: usize = 0;
        while i < self.entries.len()
            invariant
                i <= self.entries@.len(),
                r@.len() == i,
                forall|j: int| 0 <= j < i ==> (#[trigger] r@[j])@ == self.entries@[j].0@,
            decreases self.entries@.len() - i,
        {
            r.push(self.entries[i].0.clone());
            i = i + 1;
        }
        proof {
            let keys = r.deep_view();
            assert forall|a: int, b: int|
                0 <= a < keys.len() && 0 <= b < keys.len() && a != b implies keys[a] != keys[b] by {
                if a < b {
                    assert(self.entries@[a].0@ != self.entries@[b].0@);
                } else {
                    assert(self.entries@[b].0@ != self.entries@[a].0@);
                }
            }
            assert forall|key: Seq<char>|
                self.view().contains_key(key) <==> #[trigger] keys.contains(key) by {
                if self.view().contains_key(key) {
                    let j = choose|j: int| key_at(self.entries@, key, j);
                    assert(keys[j] == key);
                }
                if keys.contains(key) {
                    let j = choose|j: int| 0 <= j < keys.len() && keys[j] == key;
                    assert(key_at(self.entries@, key, j));
                }
            }
        }
        r
    }

    /// Unmaps every key.
    pub fn clear(&mut self)
        ensures
            final(self).wf(),
            final(self).view() == Map::<Seq<char>, V>::empty(),
    {
        self.entries = Vec::new();
        assert(self.view() == Map::<Seq<char>, V>::empty());
    }
}

} // verus!
