//! A table keyed by strings that remembers the order of arrival.

use vstd::prelude::*;

verus! {

/// One key of a table with what is stored under it.
#[derive(Debug)]
pub struct Entry<V> {
    pub key: String,
    pub value: V,
}

/// Values stored under string keys, each key at most once, in the order
/// in which the keys first arrived.
#[derive(Debug)]
pub struct Table<V> {
    pub entries: Vec<Entry<V>>,
}

impl<V> View for Table<V> {
    type V = Map<Seq<char>, V>;

    open spec fn view(&self) -> Map<Seq<char>, V> {
        Map::new(|key: Seq<char>| self.has(key), |key: Seq<char>| self.value_of(key))
    }
}

impl<V> Table<V> {
    /// The keys in order of arrival.
    pub open spec fn keys(&self) -> Seq<Seq<char>> {
        Seq::new(self.entries@.len(), |i: int| self.entries@[i].key@)
    }

    /// The values in order of arrival of their keys.
    pub open spec fn values(&self) -> Seq<V> {
        Seq::new(self.entries@.len(), |i: int| self.entries@[i].value)
    }

    /// No key occurs twice.
    pub open spec fn wf(&self) -> bool {
        forall|i: int, j: int|
            0 <= i < j < self.entries@.len() ==> self.entries@[i].key@ != self.entries@[j].key@
    }

    /// Whether something is stored under `key`.
    pub open spec fn has(&self, key: Seq<char>) -> bool {
        exists|i: int| 0 <= i < self.entries@.len() && self.entries@[i].key@ == key
    }

    /// Where `key` stands in the order of arrival.
    pub open spec fn pos(&self, key: Seq<char>) -> int {
        choose|i: int| 0 <= i < self.entries@.len() && self.entries@[i].key@ == key
    }

    /// What is stored under `key`.
    pub open spec fn value_of(&self, key: Seq<char>) -> V {
        self.entries@[self.pos(key)].value
    }

    /// In a table without repeated keys a key stands where it is found.
    pub proof fn lemma_pos(&self, i: int)
        requires
            self.wf(),
            0 <= i < self.entries@.len(),
        ensures
            self.has(self.entries@[i].key@),
            self.pos(self.entries@[i].key@) == i,
            self@.contains_key(self.entries@[i].key@),
            self@[self.entries@[i].key@] == self.entries@[i].value,
    {
    }

    /// Something is stored under a key just when the key is among the keys.
    pub proof fn lemma_has_key(&self, key: Seq<char>)
        ensures
            self.has(key) == self.keys().contains(key),
            self.has(key) == self@.contains_key(key),
    {
        if self.has(key) {
            let i = self.pos(key);
            assert(self.keys()[i] == key);
        }
    }

    /// An empty table.
    pub fn new() -> (table: Self)
        ensures
            table.entries@.len() == 0,
            table.wf(),
            table@ == Map::<Seq<char>, V>::empty(),
    {
        let table = Table { entries: Vec::new() };
        table
    }

    /// How many keys the table holds.
    pub fn len(&self) -> (n: usize)
        ensures
            n == self.entries@.len(),
    {
        self.entries.len()
    }

    /// Whether the table holds nothing.
    pub fn is_empty(&self) -> (res: bool)
        ensures
            res == (self.entries@.len() == 0),
    {
        self.entries.len() == 0
    }

    /// Where `key` stands, if the table holds it.
    pub fn position(&self, key: &String) -> (res: Option<usize>)
        ensures
            res is Some <==> self.has(key@),
            res matches Some(i) ==> i < self.entries@.len() && self.entries@[i as int].key@
                == key@ && forall|j: int| 0 <= j < i ==> self.entries@[j].key@ != key@,
            self.wf() && res is Some ==> res->0 == self.pos(key@),
    {
        let mut i: usize = 0;
        while i < self.entries.len()
            invariant
                i <= self.entries@.len(),
                forall|j: int| 0 <= j < i ==> self.entries@[j].key@ != key@,
            decreases self.entries@.len() - i,
        {
            if self.entries[i].key == *key {
                return Some(i);
            }
            i += 1;
        }
        None
    }

    /// Whether something is stored under `key`.
    pub fn contains(&self, key: &String) -> (res: bool)
        ensures
            res == self.has(key@),
            res == self@.contains_key(key@),
    {
        self.position(key).is_some()
    }

    /// What is stored under `key`, if anything.
    pub fn get(&self, key: &String) -> (res: Option<&V>)
        requires
            self.wf(),
        ensures
            res is Some <==> self@.contains_key(key@),
            res matches Some(value) ==> *value == self@[key@],
    {
        match self.position(key) {
            Some(i) => Some(&self.entries[i].value),
            None => None,
        }
    }

    /// Stores `value` under `key`. A key that is already there keeps its
    /// place and gets the new value; a new key goes to the end.
    pub fn insert(&mut self, key: String, value: V) -> (existed: bool)
        requires
            old(self).wf(),
        ensures
            final(self).wf(),
            final(self)@ == old(self)@.insert(key@, value),
            existed == old(self).has(key@),
            existed ==> final(self).keys() == old(self).keys() && final(self).values() == old(
                self,
            ).values().update(old(self).pos(key@), value),
            !existed ==> final(self).keys() == old(self).keys().push(key@) && final(self).values()
                == old(self).values().push(value),
            final(self).entries@.len() == old(self).entries@.len() + if existed {
                0int
            } else {
                1int
            },
            forall|j: int|
                0 <= j < old(self).entries@.len() ==> (#[trigger] final(self).entries@[j]).key
                    == old(self).entries@[j].key,
            forall|j: int|
                0 <= j < old(self).entries@.len() && !(existed && j == old(self).pos(key@))
                    ==> #[trigger] final(self).entries@[j] == old(self).entries@[j],
            existed ==> final(self).entries@[old(self).pos(key@)].value == value,
            !existed ==> final(self).entries@[old(self).entries@.len() as int].key@ == key@
                && final(self).entries@[old(self).entries@.len() as int].value == value,
    {
        let found = self.position(&key);
        match found {
            Some(i) => {
                self.entries[i].value = value;
                proof {
                    self.lemma_after_update(*old(self), i as int);
                }
                true
            },
            None => {
                self.entries.push(Entry { key, value });
                proof {
                    self.lemma_after_push(*old(self));
                }
                false
            },
        }
    }

    /// A table with the same keys at the same places finds each key where
    /// the other does.
    pub proof fn lemma_same_keys(&self, before: Self)
        requires
            before.wf(),
            self.entries@.len() == before.entries@.len(),
            forall|j: int|
                0 <= j < before.entries@.len() ==> (#[trigger] self.entries@[j]).key@
                    == before.entries@[j].key@,
        ensures
            self.wf(),
            forall|key: Seq<char>| #[trigger] self.has(key) == before.has(key),
            forall|key: Seq<char>| self.has(key) ==> #[trigger] self.pos(key) == before.pos(key),
    {
        assert forall|key: Seq<char>| #[trigger] self.has(key) == before.has(key) by {
            if before.has(key) {
                let j = before.pos(key);
                assert(self.entries@[j].key@ == key);
            }
        }
    }

    /// A table with one new key at the end finds the old keys where they
    /// were, and the new key at the end.
    pub proof fn lemma_pushed_key(&self, before: Self)
        requires
            before.wf(),
            self.entries@.len() == before.entries@.len() + 1,
            forall|j: int|
                0 <= j < before.entries@.len() ==> (#[trigger] self.entries@[j]).key@
                    == before.entries@[j].key@,
            !before.has(self.entries@[before.entries@.len() as int].key@),
        ensures
            self.wf(),
            forall|key: Seq<char>| #[trigger]
                self.has(key) == (before.has(key) || key == self.entries@[before.entries@.len() as int].key@),
            forall|key: Seq<char>| before.has(key) ==> #[trigger] self.pos(key) == before.pos(key),
            self.pos(self.entries@[before.entries@.len() as int].key@) == before.entries@.len(),
    {
        let n = before.entries@.len() as int;
        assert forall|key: Seq<char>| #[trigger]
            self.has(key) == (before.has(key) || key == self.entries@[n].key@) by {
            if before.has(key) {
                let j = before.pos(key);
                assert(self.entries@[j].key@ == key);
            }
        }
        assert forall|key: Seq<char>| before.has(key) implies #[trigger] self.pos(key)
            == before.pos(key) by {
            let j = before.pos(key);
            self.lemma_pos(j);
        }
    }

    /// What the view becomes when the value at one place is replaced.
    pub proof fn lemma_after_update(&self, before: Self, i: int)
        requires
            before.wf(),
            0 <= i < before.entries@.len(),
            self.entries@.len() == before.entries@.len(),
            self.entries@[i].key@ == before.entries@[i].key@,
            forall|j: int|
                0 <= j < before.entries@.len() && j != i ==> self.entries@[j]
                    == before.entries@[j],
        ensures
            self.wf(),
            self@ == before@.insert(before.entries@[i].key@, self.entries@[i].value),
    {
    }

    /// What the view becomes when a new key is put at the end.
    pub proof fn lemma_after_push(&self, before: Self)
        requires
            before.wf(),
            self.entries@.len() == before.entries@.len() + 1,
            forall|j: int| 0 <= j < before.entries@.len() ==> self.entries@[j] == before.entries@[j],
            !before.has(self.entries@[before.entries@.len() as int].key@),
        ensures
            self.wf(),
            self@ == before@.insert(
                self.entries@[before.entries@.len() as int].key@,
                self.entries@[before.entries@.len() as int].value,
            ),
    {
    }
}

} // verus!
