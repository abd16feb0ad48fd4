//! Tables keyed by text.

use vstd::prelude::*;

verus! {

/// A table from texts to values.
pub struct Table<V> {
    entries: Vec<(String, V)>,
}

/// Whether some entry has the key.
spec fn occurs<V>(entries: Seq<(String, V)>, key: Seq<char>) -> bool {
    exists|i: int| 0 <= i < entries.len() && (#[trigger] entries[i]).0@ == key
}

/// Where the entry with the key is.
spec fn place<V>(entries: Seq<(String, V)>, key: Seq<char>) -> int {
    choose|i: int| 0 <= i < entries.len() && (#[trigger] entries[i]).0@ == key
}

/// No key occurs twice.
spec fn distinct<V>(entries: Seq<(String, V)>) -> bool {
    forall|i: int, j: int|
        0 <= i < j < entries.len() ==> (#[trigger] entries[i]).0@ != (#[trigger] entries[j]).0@
}

/// The map that the entries make.
spec fn contents<V>(entries: Seq<(String, V)>) -> Map<Seq<char>, V> {
    Map::new(|key: Seq<char>| occurs(entries, key), |key: Seq<char>| entries[place(entries, key)].1)
}

impl<V> View for Table<V> {
    type V = Map<Seq<char>, V>;

    closed spec fn view(&self) -> Map<Seq<char>, V> {
        contents(self.entries@)
    }
}

/// An entry is found under its key.
proof fn lemma_entry<V>(entries: Seq<(String, V)>, i: int)
    requires
        distinct(entries),
        0 <= i < entries.len(),
    ensures
        contents(entries).contains_key(entries[i].0@),
        contents(entries)[entries[i].0@] == entries[i].1,
{
    let key = entries[i].0@;
    assert(occurs(entries, key));
    let j = place(entries, key);
    assert(entries[j].0@ == key);
    if j < i {
        assert(entries[j].0@ != entries[i].0@);
    } else if i < j {
        assert(entries[i].0@ != entries[j].0@);
    }
}

/// What is in the map is some entry.
proof fn lemma_found<V>(entries: Seq<(String, V)>, key: Seq<char>)
    requires
        contents(entries).contains_key(key),
    ensures
        0 <= place(entries, key) < entries.len(),
        entries[place(entries, key)].0@ == key,
{
}

impl<V> Table<V> {
    #[verifier::type_invariant]
    spec fn no_key_twice(self) -> bool {
        distinct(self.entries@)
    }

    /// An empty table.
    pub fn new() -> (r: Table<V>)
        ensures
            r@ == Map::<Seq<char>, V>::empty(),
    {
        let r = Table { entries: Vec::new() };
        assert(r@ =~= Map::<Seq<char>, V>::empty());
        r
    }

    /// Where the entry with a key is.
    fn find(&self, key: &str) -> (r: Option<usize>)
        ensures
            match r {
                Some(i) => i < self.entries@.len() && self.entries@[i as int].0@ == key@,
                None => !occurs(self.entries@, key@),
            },
    {
        let wanted = key.to_owned();
        let mut i: usize = 0;
        while i < self.entries.len()
            invariant
                i <= self.entries@.len(),
                wanted@ == key@,
                forall|j: int| 0 <= j < i ==> (#[trigger] self.entries@[j]).0@ != key@,
            decreases self.entries@.len() - i,
        {
            if self.entries[i].0 == wanted {
                return Some(i);
            }
            i += 1;
        }
        None
    }

    /// The value under a key.
    pub fn get(&self, key: &str) -> (r: Option<&V>)
        ensures
            r is Some <==> self@.contains_key(key@),
            r matches Some(v) ==> *v == self@[key@],
    {
        proof {
            use_type_invariant(self);
        }
        match self.find(key) {
            Some(i) => {
                proof {
                    lemma_entry(self.entries@, i as int);
                }
                Some(&self.entries[i].1)
            },
            None => None,
        }
    }

    /// Whether there is a value under a key.
    pub fn contains(&self, key: &str) -> (r: bool)
        ensures
            r == self@.contains_key(key@),
    {
        proof {
            use_type_invariant(self);
        }
        match self.find(key) {
            Some(i) => {
                proof {
                    lemma_entry(self.entries@, i as int);
                }
                true
            },
            None => false,
        }
    }

    /// Puts a value under a key, and returns the value that it replaces.
    pub fn insert(&mut self, key: String, value: V) -> (r: Option<V>)
        ensures
            final(self)@ == old(self)@.insert(key@, value),
            r is Some <==> old(self)@.contains_key(key@),
            r matches Some(v) ==> v == old(self)@[key@],
    {
        let r = self.remove(key.as_str());
        proof {
            use_type_invariant(&*self);
        }
        let ghost before = self.entries@;
        let mut entries: Vec<(String, V)> = Vec::new();
        std::mem::swap(&mut self.entries, &mut entries);
        let ghost entry = (key, value);
        entries.push((key, value));
        proof {
            let after = before.push(entry);
            assert(entries@ == after);
            assert(!contents(before).contains_key(key@));
            assert forall|i: int, j: int| 0 <= i < j < after.len() implies (
            #[trigger] after[i]).0@ != (#[trigger] after[j]).0@ by {
                if j == before.len() {
                    lemma_entry(before, i);
                }
            }
            lemma_entry(after, before.len() as int);
            assert forall|k: Seq<char>|
                k != key@ && #[trigger] contents(before).contains_key(k) implies contents(
                after,
            ).contains_key(k) && contents(after)[k] == contents(before)[k] by {
                lemma_found(before, k);
                let i = place(before, k);
                assert(after[i] == before[i]);
                lemma_entry(after, i);
            }
            assert forall|k: Seq<char>|
                k != key@ && #[trigger] contents(after).contains_key(k) implies contents(
                before,
            ).contains_key(k) by {
                lemma_found(after, k);
                let i = place(after, k);
                assert(after[i] == before[i]);
                lemma_entry(before, i);
            }
            assert(contents(after) =~= contents(before).insert(key@, value));
            assert(old(self)@.remove(key@).insert(key@, value) =~= old(self)@.insert(key@, value));
        }
        self.entries = entries;
        r
    }

    /// Takes away the value under a key, and returns it.
    pub fn remove(&mut self, key: &str) -> (r: Option<V>)
        ensures
            final(self)@ == old(self)@.remove(key@),
            r is Some <==> old(self)@.contains_key(key@),
            r matches Some(v) ==> v == old(self)@[key@],
    {
        proof {
            use_type_invariant(&*self);
        }
        match self.find(key) {
            Some(i) => {
                let ghost before = self.entries@;
                let mut entries: Vec<(String, V)> = Vec::new();
                std::mem::swap(&mut self.entries, &mut entries);
                let (_, value) = entries.remove(i);
                proof {
                    let after = before.remove(i as int);
                    assert(entries@ == after);
                    lemma_entry(before, i as int);
                    assert forall|k: Seq<char>|
                        k != key@ && #[trigger] contents(before).contains_key(k) implies contents(
                        after,
                    ).contains_key(k) && contents(after)[k] == contents(before)[k] by {
                        lemma_found(before, k);
                        let j = place(before, k);
                        let j2 = if j < i {
                            j
                        } else {
                            j - 1
                        };
                        assert(after[j2] == before[j]);
                        lemma_entry(after, j2);
                    }
                    assert forall|k: Seq<char>| #[trigger] contents(after).contains_key(k) implies k
                        != key@ && contents(before).contains_key(k) by {
                        lemma_found(after, k);
                        let j = place(after, k);
                        let j2 = if j < i {
                            j
                        } else {
                            j + 1
                        };
                        assert(after[j] == before[j2]);
                        lemma_entry(before, j2);
                        if j2 < i {
                            assert(before[j2].0@ != before[i as int].0@);
                        } else {
                            assert(before[i as int].0@ != before[j2].0@);
                        }
                    }
                    assert(contents(after) =~= contents(before).remove(key@));
                }
                self.entries = entries;
                Some(value)
            },
            None => {
                assert(contents(self.entries@) =~= contents(self.entries@).remove(key@));
                None
            },
        }
    }
}

} // verus!
