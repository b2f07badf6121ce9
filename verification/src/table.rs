use vstd::prelude::*;

verus! {

/// The map that a list of entries stands for: a later entry for a key
/// overrides an earlier one.
pub open spec fn entries_map<V>(entries: Seq<(String, V)>) -> Map<Seq<char>, V>
    decreases entries.len(),
{
    if entries.len() == 0 {
        Map::empty()
    } else {
        entries_map(entries.drop_last()).insert(entries.last().0@, entries.last().1)
    }
}

/// Whether no two entries have the same key.
pub open spec fn keys_distinct<V>(entries: Seq<(String, V)>) -> bool {
    forall|i: int, j: int|
        0 <= i < entries.len() && 0 <= j < entries.len() && i != j ==> #[trigger] entries[i].0@
            != #[trigger] entries[j].0@
}

/// With distinct keys, a key is in the map exactly when some entry has it,
/// and the map gives that entry's value.
pub proof fn lemma_entries_map<V>(entries: Seq<(String, V)>)
    requires
        keys_distinct(entries),
    ensures
        forall|k: Seq<char>|
            #[trigger] entries_map(entries).contains_key(k) <==> exists|i: int|
                0 <= i < entries.len() && entries[i].0@ == k,
        forall|i: int|
            0 <= i < entries.len() ==> entries_map(entries).contains_key(#[trigger] entries[i].0@)
                && entries_map(entries)[entries[i].0@] == entries[i].1,
    decreases entries.len(),
{
    if entries.len() > 0 {
        let rest = entries.drop_last();
        assert(keys_distinct(rest)) by {
            assert forall|i: int, j: int|
                0 <= i < rest.len() && 0 <= j < rest.len() && i != j implies #[trigger] rest[i].0@
                != #[trigger] rest[j].0@ by {
                assert(rest[i] == entries[i]);
                assert(rest[j] == entries[j]);
            }
        }
        lemma_entries_map(rest);
        let n = entries.len() - 1;
        assert forall|k: Seq<char>|
            #[trigger] entries_map(entries).contains_key(k) <==> exists|i: int|
                0 <= i < entries.len() && entries[i].0@ == k by {
            if entries_map(entries).contains_key(k) {
                if k == entries[n].0@ {
                } else {
                    assert(entries_map(rest).contains_key(k));
                    let i = choose|i: int| 0 <= i < rest.len() && rest[i].0@ == k;
                    assert(entries[i] == rest[i]);
                }
            }
            if exists|i: int| 0 <= i < entries.len() && entries[i].0@ == k {
                let i = choose|i: int| 0 <= i < entries.len() && entries[i].0@ == k;
                if i < n {
                    assert(rest[i] == entries[i]);
                }
            }
        }
        assert forall|i: int| 0 <= i < entries.len() implies entries_map(entries).contains_key(
            #[trigger] entries[i].0@,
        ) && entries_map(entries)[entries[i].0@] == entries[i].1 by {
            if i < n {
                assert(rest[i] == entries[i]);
                assert(entries[i].0@ != entries[n].0@);
            }
        }
    }
}

/// A map from strings to values, kept as a list of entries with distinct keys.
#[derive(Debug)]
pub struct StringTable<V> {
    entries: Vec<(String, V)>,
}

impl<V> View for StringTable<V> {
    type V = Map<Seq<char>, V>;

    closed spec fn view(&self) -> Map<Seq<char>, V> {
        entries_map(self.entries@)
    }
}

impl<V> StringTable<V> {
    /// The entries, in insertion order.
    pub closed spec fn entries(&self) -> Seq<(String, V)> {
        self.entries@
    }

    /// The table's invariant: no key occurs twice.
    pub closed spec fn wf(&self) -> bool {
        keys_distinct(self.entries@)
    }

    /// The entries stand for the map, and every entry is in it.
    pub proof fn lemma_view(&self)
        requires
            self.wf(),
        ensures
            self@ == entries_map(self.entries()),
            keys_distinct(self.entries()),
            forall|k: Seq<char>|
                #[trigger] self@.contains_key(k) <==> exists|i: int|
                    0 <= i < self.entries().len() && self.entries()[i].0@ == k,
            forall|i: int|
                0 <= i < self.entries().len() ==> self@.contains_key(
                    #[trigger] self.entries()[i].0@,
                ) && self@[self.entries()[i].0@] == self.entries()[i].1,
    {
        lemma_entries_map(self.entries@);
    }

    /// An empty table.
    pub fn new() -> (t: Self)
        ensures
            t.wf(),
            t@ == Map::<Seq<char>, V>::empty(),
            t.entries().len() == 0,
    {
        StringTable { entries: Vec::new() }
    }

    /// Number of entries.
    pub fn len(&self) -> (n: usize)
        ensures
            n == self.entries().len(),
    {
        self.entries.len()
    }

    /// The key and value of entry `i`.
    pub fn entry(&self, i: usize) -> (e: (&String, &V))
        requires
            i < self.entries().len(),
        ensures
            *e.0 == self.entries()[i as int].0,
            *e.1 == self.entries()[i as int].1,
    {
        let entry = &self.entries[i];
        (&entry.0, &entry.1)
    }

    /// Position of the entry for `key`, if any.
    fn position(&self, key: &String) -> (pos: Option<usize>)
        requires
            self.wf(),
        ensures
            match pos {
                Some(i) => i < self.entries().len() && self.entries()[i as int].0@ == key@,
                None => !self@.contains_key(key@),
            },
    {
        proof {
            lemma_entries_map(self.entries@);
        }
        let mut i: usize = 0;
        while i < self.entries.len()
            invariant
                self.wf(),
                i <= self.entries@.len(),
                forall|j: int| 0 <= j < i ==> self.entries@[j].0@ != key@,
            decreases self.entries@.len() - i,
        {
            if self.entries[i].0 == *key {
                return Some(i);
            }
            i = i + 1;
        }
        None
    }

    /// Whether `key` has an entry.
    pub fn contains_key(&self, key: &String) -> (b: bool)
        requires
            self.wf(),
        ensures
            b == self@.contains_key(key@),
    {
        proof {
            lemma_entries_map(self.entries@);
        }
        match self.position(key) {
            Some(_) => true,
            None => false,
        }
    }

    /// The value stored for `key`, if any.
    pub fn get(&self, key: &String) -> (v: Option<&V>)
        requires
            self.wf(),
        ensures
            match v {
                Some(v) => self@.contains_key(key@) && *v == self@[key@],
                None => !self@.contains_key(key@),
            },
    {
        proof {
            lemma_entries_map(self.entries@);
        }
        match self.position(key) {
            Some(i) => {
                let entry = &self.entries[i];
                Some(&entry.1)
            },
            None => None,
        }
    }

    /// Stores `value` under `key`, replacing any value it had.
    pub fn insert(&mut self, key: String, value: V)
        requires
            old(self).wf(),
        ensures
            final(self).wf(),
            final(self)@ == old(self)@.insert(key@, value),
            old(self)@.contains_key(key@) ==> exists|i: int|
                0 <= i < old(self).entries().len() && old(self).entries()[i].0@ == key@
                    && final(self).entries() == old(self).entries().update(i, (key, value)),
            !old(self)@.contains_key(key@) ==> final(self).entries() == old(self).entries().push(
                (key, value),
            ),
    {
        let ghost old_entries = self.entries@;
        let ghost k = key@;
        proof {
            lemma_entries_map(old_entries);
        }
        match self.position(&key) {
            Some(i) => {
                self.entries.set(i, (key, value));
                let ghost new_entries = self.entries@;
                proof {
                    assert(new_entries == old_entries.update(i as int, new_entries[i as int]));
                    assert(keys_distinct(new_entries)) by {
                        assert forall|a: int, b: int|
                            0 <= a < new_entries.len() && 0 <= b < new_entries.len() && a != b
                                implies #[trigger] new_entries[a].0@
                            != #[trigger] new_entries[b].0@ by {
                            if a != i {
                                assert(new_entries[a] == old_entries[a]);
                            }
                            if b != i {
                                assert(new_entries[b] == old_entries[b]);
                            }
                        }
                    }
                    lemma_entries_map(new_entries);
                    assert(entries_map(new_entries) =~= entries_map(old_entries).insert(k, value))
                        by {
                        assert forall|q: Seq<char>|
                            #[trigger] entries_map(new_entries).contains_key(q)
                                == entries_map(old_entries).insert(k, value).contains_key(q) by {
                            if entries_map(new_entries).contains_key(q) {
                                let j = choose|j: int|
                                    0 <= j < new_entries.len() && new_entries[j].0@ == q;
                                if j != i {
                                    assert(new_entries[j] == old_entries[j]);
                                }
                            }
                            if entries_map(old_entries).contains_key(q) {
                                let j = choose|j: int|
                                    0 <= j < old_entries.len() && old_entries[j].0@ == q;
                                if j != i {
                                    assert(new_entries[j] == old_entries[j]);
                                } else {
                                    assert(new_entries[i as int].0@ == q);
                                }
                            }
                            if q == k {
                                assert(new_entries[i as int].0@ == q);
                            }
                        }
                        assert forall|q: Seq<char>|
                            #[trigger] entries_map(new_entries).contains_key(q) implies entries_map(
                            new_entries,
                        )[q] == entries_map(old_entries).insert(k, value)[q] by {
                            let j = choose|j: int|
                                0 <= j < new_entries.len() && new_entries[j].0@ == q;
                            if j != i {
                                assert(new_entries[j] == old_entries[j]);
                                assert(q != k);
                            }
                        }
                    }
                }
            },
            None => {
                self.entries.push((key, value));
                proof {
                    let new_entries = self.entries@;
                    assert(new_entries.drop_last() == old_entries);
                    assert forall|a: int, b: int|
                        0 <= a < new_entries.len() && 0 <= b < new_entries.len() && a != b
                            implies #[trigger] new_entries[a].0@ != #[trigger] new_entries[b].0@ by {
                        if a < old_entries.len() {
                            assert(new_entries[a] == old_entries[a]);
                            assert(entries_map(old_entries).contains_key(old_entries[a].0@));
                        }
                        if b < old_entries.len() {
                            assert(new_entries[b] == old_entries[b]);
                            assert(entries_map(old_entries).contains_key(old_entries[b].0@));
                        }
                    }
                }
            },
        }
    }
}

} // verus!
