//! A map from strings to values.
use vstd::prelude::*;

use crate::print::{add_entry, finish_map, start_map};
use crate::text::same_text;

verus! {

/// A map whose keys are strings.
///
/// It is kept as a list, in which entries stand in the order in which their keys were first
/// inserted: so it prints in a fixed order, and its values can be changed in place. Like std's
/// maps it prints as `{key: value, ..}`.
pub struct StringMap<V> {
    entries: Vec<(String, V)>,
}

impl<V: std::fmt::Debug> std::fmt::Debug for StringMap<V> {
    fn fmt(&self, f: &mut std::fmt::Formatter<'_>) -> (r: Result<(), std::fmt::Error>) {
        let mut map = start_map(f);
        let mut i: usize = 0;
        while i < self.entries.len()
            decreases self.entries@.len() - i,
        {
            add_entry(&mut map, &self.entries[i].0, &self.entries[i].1);
            i = i + 1;
        }
        finish_map(&mut map)
    }
}

impl<V> View for StringMap<V> {
    type V = Map<Seq<char>, V>;

    closed spec fn view(&self) -> Map<Seq<char>, V> {
        Map::new(
            |k: Seq<char>| self.holds(k),
            |k: Seq<char>| self.entries@[self.slot(k)].1,
        )
    }
}

impl<V> StringMap<V> {
    /// Whether some entry has the key `k`.
    closed spec fn holds(&self, k: Seq<char>) -> bool {
        exists|i: int| 0 <= i < self.entries@.len() && (#[trigger] self.entries@[i]).0@ == k
    }

    /// The position of an entry with the key `k`.
    closed spec fn slot(&self, k: Seq<char>) -> int {
        choose|i: int| 0 <= i < self.entries@.len() && (#[trigger] self.entries@[i]).0@ == k
    }

    /// No key has two entries.
    pub closed spec fn wf(&self) -> bool {
        forall|i: int, j: int|
            0 <= i < j < self.entries@.len() ==> (#[trigger] self.entries@[i]).0@ != (
            #[trigger] self.entries@[j]).0@
    }

    /// Each entry is what the map holds under the entry's key.
    proof fn lemma_entry(&self, i: int)
        requires
            self.wf(),
            0 <= i < self.entries@.len(),
        ensures
            self@.contains_key(self.entries@[i].0@),
            self@[self.entries@[i].0@] == self.entries@[i].1,
    {
        assert(self.holds(self.entries@[i].0@));
        assert(self.slot(self.entries@[i].0@) == i);
    }

    /// Replacing the value of one entry is an insertion under its key.
    proof fn lemma_replace(before: Self, after: Self, i: int)
        requires
            before.wf(),
            0 <= i < before.entries@.len(),
            after.entries@ == before.entries@.update(
                i,
                (before.entries@[i].0, after.entries@[i].1),
            ),
        ensures
            after.wf(),
            after@ == before@.insert(before.entries@[i].0@, after.entries@[i].1),
    {
        let key = before.entries@[i].0@;
        let target = before@.insert(key, after.entries@[i].1);
        assert forall|k: Seq<char>| after@.contains_key(k) <==> target.contains_key(k) by {
            if after.holds(k) {
                let j = after.slot(k);
                assert(before.entries@[j].0@ == k);
            }
            if before.holds(k) {
                let j = before.slot(k);
                assert(after.entries@[j].0@ == k);
            }
            assert(after.entries@[i].0@ == key);
        }
        assert forall|k: Seq<char>| after@.contains_key(k) implies after@[k] == target[k] by {
            let j = after.slot(k);
            after.lemma_entry(j);
            before.lemma_entry(j);
            assert(after.entries@[i].0@ == key);
        }
        assert(after@ =~= target);
    }

    /// Adding an entry with a new key is an insertion.
    proof fn lemma_push(before: Self, after: Self, key: String, value: V)
        requires
            before.wf(),
            !before@.contains_key(key@),
            after.entries@ == before.entries@.push((key, value)),
        ensures
            after.wf(),
            after@ == before@.insert(key@, value),
    {
        let n = before.entries@.len() as int;
        assert forall|i: int, j: int| 0 <= i < j < after.entries@.len() implies (
        #[trigger] after.entries@[i]).0@ != (#[trigger] after.entries@[j]).0@ by {
            assert(before.entries@[i].0@ == after.entries@[i].0@);
            if j == n {
                assert(before.holds(before.entries@[i].0@));
            } else {
                assert(before.entries@[j].0@ == after.entries@[j].0@);
            }
        }
        let target = before@.insert(key@, value);
        assert(after.entries@[n] == (key, value));
        assert forall|k: Seq<char>| after@.contains_key(k) <==> target.contains_key(k) by {
            if after.holds(k) {
                let j = after.slot(k);
                if j < n {
                    assert(before.entries@[j].0@ == k);
                }
            }
            if before.holds(k) {
                let j = before.slot(k);
                assert(after.entries@[j].0@ == k);
            }
        }
        assert forall|k: Seq<char>| after@.contains_key(k) implies after@[k] == target[k] by {
            let j = after.slot(k);
            after.lemma_entry(j);
            if j < n {
                before.lemma_entry(j);
                assert(after.entries@[j] == before.entries@[j]);
            }
        }
        assert(after@ =~= target);
    }

    /// An empty map.
    pub fn new() -> (r: Self)
        ensures
            r.wf(),
            r@ == Map::<Seq<char>, V>::empty(),
    {
        let r = StringMap { entries: Vec::new() };
        assert(r@ =~= Map::<Seq<char>, V>::empty());
        r
    }

    /// The position of the entry with the key `key`.
    fn position(&self, key: &str) -> (r: Option<usize>)
        requires
            self.wf(),
        ensures
            match r {
                Some(i) => {
                    &&& i < self.entries@.len()
                    &&& self.entries@[i as int].0@ == key@
                    &&& self@.contains_key(key@)
                    &&& self@[key@] == self.entries@[i as int].1
                },
                None => !self@.contains_key(key@),
            },
    {
        let mut i: usize = 0;
        while i < self.entries.len()
            invariant
                self.wf(),
                i <= self.entries@.len(),
                forall|j: int| 0 <= j < i ==> (#[trigger] self.entries@[j]).0@ != key@,
            decreases self.entries@.len() - i,
        {
            if same_text(self.entries[i].0.as_str(), key) {
                return Some(i);
            }
            i = i + 1;
        }
        None
    }

    /// The value stored under `key`, if there is one.
    pub fn get(&self, key: &str) -> (r: Option<&V>)
        requires
            self.wf(),
        ensures
            match r {
                Some(v) => self@.contains_key(key@) && *v == self@[key@],
                None => !self@.contains_key(key@),
            },
    {
        match self.position(key) {
            Some(i) => Some(&self.entries[i].1),
            None => None,
        }
    }

    /// A mutable reference to the value stored under `key`, if there is one.
    pub fn get_mut(&mut self, key: &str) -> (r: Option<&mut V>)
        requires
            old(self).wf(),
        ensures
            final(self).wf(),
            match r {
                Some(v) => {
                    &&& old(self)@.contains_key(key@)
                    &&& *v == old(self)@[key@]
                    &&& final(self)@ == old(self)@.insert(key@, *final(v))
                },
                None => !old(self)@.contains_key(key@) && final(self)@ == old(self)@,
            },
    {
        match self.position(key) {
            Some(i) => {
                proof {
                    let before = *self;
                    assert forall|after: Self|
                        after.entries@ == before.entries@.update(
                            i as int,
                            (before.entries@[i as int].0, after.entries@[i as int].1),
                        ) implies after.wf() && #[trigger] after@ == before@.insert(
                        key@,
                        after.entries@[i as int].1,
                    ) by {
                        Self::lemma_replace(before, after, i as int);
                    }
                }
                Some(&mut self.entries[i].1)
            },
            None => None,
        }
    }

    /// Stores `value` under `key`, in place of what was there.
    pub fn insert(&mut self, key: String, value: V)
        requires
            old(self).wf(),
        ensures
            final(self).wf(),
            final(self)@ == old(self)@.insert(key@, value),
    {
        match self.position(key.as_str()) {
            Some(i) => {
                self.entries[i].1 = value;
                proof {
                    Self::lemma_replace(*old(self), *self, i as int);
                }
            },
            None => {
                self.entries.push((key, value));
                proof {
                    Self::lemma_push(*old(self), *self, key, value);
                }
            },
        }
    }
}

} // verus!
