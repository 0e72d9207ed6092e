//! A table of values under distinct string keys, in the order in which the
//! keys came.

use vstd::prelude::*;
use crate::text;

verus! {

/// Values under distinct keys.
pub struct Table<V> {
    entries: Vec<(String, V)>,
}

impl<V> Table<V> {
    /// The entries, in order.
    pub closed spec fn entries(&self) -> Seq<(String, V)> {
        self.entries@
    }

    /// No key occurs twice.
    pub open spec fn wf(&self) -> bool {
        forall|i: int, j: int|
            0 <= i < j < self.entries().len() ==> (#[trigger] self.entries()[i]).0@ != (
            #[trigger] self.entries()[j]).0@
    }

    /// Whether a key stands at a position.
    pub open spec fn key_at(&self, i: int, key: Seq<char>) -> bool {
        0 <= i < self.entries().len() && self.entries()[i].0@ == key
    }

    /// The position of a key.
    pub open spec fn index_of(&self, key: Seq<char>) -> int {
        choose|i: int| self.key_at(i, key)
    }

    /// The values by key.
    pub open spec fn view(&self) -> Map<Seq<char>, V> {
        Map::new(
            |key: Seq<char>| exists|i: int| self.key_at(i, key),
            |key: Seq<char>| self.entries()[self.index_of(key)].1,
        )
    }

    /// Every entry is in the map.
    pub proof fn lemma_entry(&self, i: int)
        requires
            self.wf(),
            0 <= i < self.entries().len(),
        ensures
            self@.contains_key(self.entries()[i].0@),
            self@[self.entries()[i].0@] == self.entries()[i].1,
    {
        let key = self.entries()[i].0@;
        assert(self.key_at(i, key));
        let j = self.index_of(key);
        assert(self.key_at(j, key));
        if i != j {
            assert(self.entries()[i].0@ == self.entries()[j].0@);
        }
    }

    /// An empty table.
    pub fn new() -> (r: Self)
        ensures
            r.wf(),
            r.entries().len() == 0,
            r@ == Map::<Seq<char>, V>::empty(),
    {
        let r: Self = Table { entries: Vec::new() };
        assert(r@ =~= Map::<Seq<char>, V>::empty());
        r
    }

    /// The number of entries.
    pub fn len(&self) -> (r: usize)
        ensures
            r == self.entries().len(),
    {
        self.entries.len()
    }

    /// The entry at a position.
    pub fn at(&self, i: usize) -> (r: &(String, V))
        requires
            i < self.entries().len(),
        ensures
            *r == self.entries()[i as int],
    {
        &self.entries[i]
    }

    /// The position of a key, if it is there.
    pub fn find(&self, key: &str) -> (r: Option<usize>)
        requires
            self.wf(),
        ensures
            match r {
                Some(i) => self.key_at(i as int, key@) && self@.contains_key(key@) && self@[key@]
                    == self.entries()[i as int].1,
                None => !self@.contains_key(key@),
            },
    {
        let mut i: usize = 0;
        while i < self.entries.len()
            invariant
                self.wf(),
                i <= self.entries@.len(),
                forall|j: int| 0 <= j < i ==> !self.key_at(j, key@),
            decreases self.entries@.len() - i,
        {
            if text::same(self.entries[i].0.as_str(), key) {
                proof {
                    self.lemma_entry(i as int);
                }
                return Some(i);
            }
            i = i + 1;
        }
        None
    }

    /// The value under a key.
    pub fn get(&self, key: &str) -> (r: Option<&V>)
        requires
            self.wf(),
        ensures
            match r {
                Some(v) => self@.contains_key(key@) && *v == self@[key@],
                None => !self@.contains_key(key@),
            },
    {
        match self.find(key) {
            Some(i) => Some(&self.entries[i].1),
            None => None,
        }
    }

    /// Puts a value at a position, under the key that stands there.
    pub fn set_at(&mut self, i: usize, value: V)
        requires
            old(self).wf(),
            i < old(self).entries().len(),
        ensures
            final(self).wf(),
            final(self).entries() == old(self).entries().update(
                i as int,
                (old(self).entries()[i as int].0, value),
            ),
            final(self)@ == old(self)@.insert(old(self).entries()[i as int].0@, value),
    {
        let key: String = self.entries[i].0.clone();
        let ghost before = *self;
        self.entries.set(i, (key, value));
        proof {
            before.lemma_entry(i as int);
            assert(self.entries() == before.entries().update(
                i as int,
                (before.entries()[i as int].0, value),
            ));
            assert forall|a: int, b: int| 0 <= a < b < self.entries().len() implies (
            #[trigger] self.entries()[a]).0@ != (#[trigger] self.entries()[b]).0@ by {
                assert(before.entries()[a].0@ != before.entries()[b].0@);
            }
            lemma_update_map(before, *self, i as int, value);
        }
    }

    /// The value at a position, to be changed in place.
    pub fn value_mut(&mut self, i: usize) -> (r: &mut V)
        requires
            old(self).wf(),
            i < old(self).entries().len(),
        ensures
            *r == old(self).entries()[i as int].1,
            final(self).wf(),
            final(self).entries() == old(self).entries().update(
                i as int,
                (old(self).entries()[i as int].0, *final(r)),
            ),
    {
        &mut self.entries[i].1
    }

    /// Puts a value under a key, in place of the one that is there.
    pub fn insert(&mut self, key: String, value: V)
        requires
            old(self).wf(),
        ensures
            final(self).wf(),
            final(self)@ == old(self)@.insert(key@, value),
            old(self)@.contains_key(key@) ==> final(self).entries().len() == old(
                self,
            ).entries().len(),
            !old(self)@.contains_key(key@) ==> final(self).entries() == old(self).entries().push(
                (key, value),
            ),
    {
        match self.find(key.as_str()) {
            Some(i) => {
                self.set_at(i, value);
            },
            None => {
                let ghost before = *self;
                self.entries.push((key, value));
                proof {
                    assert(self.entries() == before.entries().push((key, value)));
                    assert forall|a: int, b: int| 0 <= a < b < self.entries().len() implies (
                    #[trigger] self.entries()[a]).0@ != (#[trigger] self.entries()[b]).0@ by {
                        if b < before.entries().len() {
                            assert(before.entries()[a].0@ != before.entries()[b].0@);
                        } else {
                            before.lemma_entry(a);
                        }
                    }
                    lemma_push_map(before, *self, key, value);
                }
            },
        }
    }

    /// Takes out the entry at a position.
    pub fn remove_at(&mut self, i: usize) -> (r: (String, V))
        requires
            old(self).wf(),
            i < old(self).entries().len(),
        ensures
            r == old(self).entries()[i as int],
            final(self).wf(),
            final(self).entries() == old(self).entries().remove(i as int),
            final(self)@ == old(self)@.remove(old(self).entries()[i as int].0@),
    {
        let ghost before = *self;
        let r: (String, V) = self.entries.remove(i);
        proof {
            assert forall|a: int, b: int| 0 <= a < b < self.entries().len() implies (
            #[trigger] self.entries()[a]).0@ != (#[trigger] self.entries()[b]).0@ by {
                let x = if a < i {
                    a
                } else {
                    a + 1
                };
                let y = if b < i {
                    b
                } else {
                    b + 1
                };
                assert(before.entries()[x].0@ != before.entries()[y].0@);
            }
            lemma_remove_map(before, *self, i as int);
        }
        r
    }

    /// Takes out the value under a key.
    pub fn remove(&mut self, key: &str) -> (r: Option<V>)
        requires
            old(self).wf(),
        ensures
            final(self).wf(),
            final(self)@ == old(self)@.remove(key@),
            match r {
                Some(v) => old(self)@.contains_key(key@) && v == old(self)@[key@],
                None => !old(self)@.contains_key(key@),
            },
    {
        match self.find(key) {
            Some(i) => {
                let (_key, value): (String, V) = self.remove_at(i);
                Some(value)
            },
            None => {
                assert(self@.remove(key@) =~= self@);
                None
            },
        }
    }
}

/// A changed value changes the map at its key alone.
pub proof fn lemma_update_map<V>(before: Table<V>, after: Table<V>, i: int, value: V)
    requires
        before.wf(),
        after.wf(),
        0 <= i < before.entries().len(),
        after.entries() == before.entries().update(i, (before.entries()[i].0, value)),
    ensures
        after@ == before@.insert(before.entries()[i].0@, value),
{
    let m = before@.insert(before.entries()[i].0@, value);
    assert forall|k: Seq<char>| after@.contains_key(k) <==> m.contains_key(k) by {
        if after@.contains_key(k) {
            let j = choose|j: int| after.key_at(j, k);
            assert(before.key_at(j, k));
        }
        if m.contains_key(k) {
            if k == before.entries()[i].0@ {
                assert(after.key_at(i, k));
            } else {
                let j = choose|j: int| before.key_at(j, k);
                assert(after.key_at(j, k));
            }
        }
    }
    assert forall|k: Seq<char>| after@.contains_key(k) implies after@[k] == m[k] by {
        let j = choose|j: int| after.key_at(j, k);
        after.lemma_entry(j);
        before.lemma_entry(j);
        before.lemma_entry(i);
        if j != i {
            assert(before.entries()[j].0@ != before.entries()[i].0@) by {
                if j < i {
                    assert(before.entries()[j].0@ != before.entries()[i].0@);
                } else {
                    assert(before.entries()[i].0@ != before.entries()[j].0@);
                }
            }
        }
    }
    assert(after@ =~= m);
}

/// A new entry adds its key to the map.
proof fn lemma_push_map<V>(before: Table<V>, after: Table<V>, key: String, value: V)
    requires
        before.wf(),
        after.wf(),
        !before@.contains_key(key@),
        after.entries() == before.entries().push((key, value)),
    ensures
        after@ == before@.insert(key@, value),
{
    let m = before@.insert(key@, value);
    let n = before.entries().len() as int;
    assert forall|k: Seq<char>| after@.contains_key(k) <==> m.contains_key(k) by {
        if after@.contains_key(k) {
            let j = choose|j: int| after.key_at(j, k);
            if j < n {
                assert(before.key_at(j, k));
            }
        }
        if m.contains_key(k) {
            if k == key@ {
                assert(after.key_at(n, k));
            } else {
                let j = choose|j: int| before.key_at(j, k);
                assert(after.key_at(j, k));
            }
        }
    }
    assert forall|k: Seq<char>| after@.contains_key(k) implies after@[k] == m[k] by {
        let j = choose|j: int| after.key_at(j, k);
        after.lemma_entry(j);
        if j < n {
            before.lemma_entry(j);
        }
    }
    assert(after@ =~= m);
}

/// An entry taken out leaves the map without its key.
proof fn lemma_remove_map<V>(before: Table<V>, after: Table<V>, i: int)
    requires
        before.wf(),
        after.wf(),
        0 <= i < before.entries().len(),
        after.entries() == before.entries().remove(i),
    ensures
        after@ == before@.remove(before.entries()[i].0@),
{
    let key = before.entries()[i].0@;
    let m = before@.remove(key);
    assert forall|k: Seq<char>| after@.contains_key(k) <==> m.contains_key(k) by {
        if after@.contains_key(k) {
            let j = choose|j: int| after.key_at(j, k);
            let x = if j < i {
                j
            } else {
                j + 1
            };
            assert(before.key_at(x, k));
            if x < i {
                assert(before.entries()[x].0@ != before.entries()[i].0@);
            } else {
                assert(before.entries()[i].0@ != before.entries()[x].0@);
            }
        }
        if m.contains_key(k) {
            let j = choose|j: int| before.key_at(j, k);
            let x = if j < i {
                j
            } else {
                j - 1
            };
            assert(after.key_at(x, k));
        }
    }
    assert forall|k: Seq<char>| after@.contains_key(k) implies after@[k] == m[k] by {
        let j = choose|j: int| after.key_at(j, k);
        let x = if j < i {
            j
        } else {
            j + 1
        };
        after.lemma_entry(j);
        before.lemma_entry(x);
    }
    assert(after@ =~= m);
}

} // verus!
