//! Small collections keyed by text, with contracts over their contents.
use vstd::prelude::*;
use crate::text::str_equal;

verus! {

/// A map from text keys to values; no key occurs twice.
#[derive(Debug)]
pub struct StringMap<V> {
    entries: Vec<(String, V)>,
}

/// The keys of the entries, in order.
pub open spec fn entry_keys<V>(entries: Seq<(String, V)>) -> Seq<Seq<char>> {
    entries.map_values(|e: (String, V)| e.0@)
}

/// The map the entries stand for.
pub open spec fn entries_map<V>(entries: Seq<(String, V)>) -> Map<Seq<char>, V>
    decreases entries.len(),
{
    if entries.len() == 0 {
        Map::empty()
    } else {
        entries_map(entries.drop_last()).insert(entries.last().0@, entries.last().1)
    }
}

proof fn lemma_entries_map<V>(entries: Seq<(String, V)>)
    requires
        entry_keys(entries).no_duplicates(),
    ensures
        forall|i: int|
            0 <= i < entries.len() ==> entries_map(entries).contains_key(#[trigger] entries[i].0@)
                && entries_map(entries)[entries[i].0@] == entries[i].1,
        forall|k: Seq<char>|
            #[trigger] entries_map(entries).contains_key(k) ==> exists|i: int|
                0 <= i < entries.len() && entries[i].0@ == k,
    decreases entries.len(),
{
    if entries.len() > 0 {
        let rest = entries.drop_last();
        let n = entries.len() - 1;
        assert(entry_keys(rest) =~= entry_keys(entries).drop_last());
        lemma_entries_map(rest);
        assert forall|i: int| 0 <= i < entries.len() implies entries_map(entries).contains_key(
            #[trigger] entries[i].0@,
        ) && entries_map(entries)[entries[i].0@] == entries[i].1 by {
            if i < n {
                assert(entry_keys(entries)[i] == entries[i].0@);
                assert(entry_keys(entries)[n] == entries[n].0@);
                assert(rest[i] == entries[i]);
                assert(rest[i].0@ == entries[i].0@);
            }
        }
        assert forall|k: Seq<char>| #[trigger]
            entries_map(entries).contains_key(k) implies exists|i: int|
            0 <= i < entries.len() && entries[i].0@ == k by {
            if k != entries[n].0@ {
                assert(entries_map(rest).contains_key(k));
                let i = choose|i: int| 0 <= i < rest.len() && rest[i].0@ == k;
                assert(entries[i] == rest[i]);
            }
        }
    }
}

impl<V> View for StringMap<V> {
    type V = Map<Seq<char>, V>;

    closed spec fn view(&self) -> Map<Seq<char>, V> {
        entries_map(self.entries@)
    }
}

impl<V> StringMap<V> {
    #[verifier::type_invariant]
    spec fn keys_distinct(&self) -> bool {
        entry_keys(self.entries@).no_duplicates()
    }

    /// An empty map.
    pub fn new() -> (out: Self)
        ensures
            out@ == Map::<Seq<char>, V>::empty(),
    {
        StringMap { entries: Vec::new() }
    }

    /// The value stored under `key`.
    pub fn get(&self, key: &str) -> (out: Option<&V>)
        ensures
            self@.contains_key(key@) ==> out == Some(&self@[key@]),
            !self@.contains_key(key@) ==> out is None,
    {
        proof {
            use_type_invariant(self);
            lemma_entries_map(self.entries@);
        }
        let mut i: usize = 0;
        while i < self.entries.len()
            invariant
                i <= self.entries@.len(),
                entry_keys(self.entries@).no_duplicates(),
                forall|j: int| 0 <= j < i ==> self.entries@[j].0@ != key@,
            decreases self.entries@.len() - i,
        {
            if str_equal(self.entries[i].0.as_str(), key) {
                proof {
                    assert(self.entries@[i as int].0@ == key@);
                    lemma_entries_map(self.entries@);
                }
                return Some(&self.entries[i].1);
            }
            i = i + 1;
        }
        proof {
            lemma_entries_map(self.entries@);
            if self@.contains_key(key@) {
                let j = choose|j: int| 0 <= j < self.entries@.len() && self.entries@[j].0@ == key@;
                assert(self.entries@[j].0@ != key@);
            }
        }
        None
    }

    /// This map with `value` stored under `key`, replacing any earlier value.
    pub fn insert(&mut self, key: String, value: V)
        ensures
            final(self)@ == old(self)@.insert(key@, value),
    {
        proof {
            use_type_invariant(&*self);
            lemma_entries_map(self.entries@);
        }
        let mut i: usize = 0;
        while i < self.entries.len()
            invariant
                i <= self.entries@.len(),
                self.entries@ == old(self).entries@,
                entry_keys(self.entries@).no_duplicates(),
                forall|j: int| 0 <= j < i ==> self.entries@[j].0@ != key@,
            decreases self.entries@.len() - i,
        {
            if str_equal(self.entries[i].0.as_str(), key.as_str()) {
                let ghost old_entries = self.entries@;
                let mut entries: Vec<(String, V)> = Vec::new();
        std::mem::swap(&mut entries, &mut self.entries);
                entries.set(i, (key, value));
                let ghost new_entries = entries@;
                proof {
                    assert(entry_keys(new_entries) =~= entry_keys(old_entries));
                    lemma_entries_map(new_entries);
                    lemma_entries_map(old_entries);
                    assert(new_entries[i as int].0@ == key@);
                    assert forall|k: Seq<char>| #[trigger]
                        entries_map(new_entries).contains_key(k) == entries_map(
                        old_entries,
                    ).insert(key@, value).contains_key(k) by {
                        if entries_map(new_entries).contains_key(k) {
                            let j = choose|j: int| 0 <= j < new_entries.len() && new_entries[j].0@ == k;
                            if j != i {
                                assert(new_entries[j] == old_entries[j]);
                            }
                        }
                        if entries_map(old_entries).contains_key(k) {
                            let j = choose|j: int| 0 <= j < old_entries.len() && old_entries[j].0@ == k;
                            if j != i {
                                assert(new_entries[j] == old_entries[j]);
                            }
                        }
                    }
                    assert forall|k: Seq<char>| #[trigger]
                        entries_map(new_entries).contains_key(k) implies entries_map(new_entries)[k]
                        == entries_map(old_entries).insert(key@, value)[k] by {
                        let j = choose|j: int| 0 <= j < new_entries.len() && new_entries[j].0@ == k;
                        if j != i {
                            assert(new_entries[j] == old_entries[j]);
                            assert(new_entries[j].0@ == old_entries[j].0@);
                        }
                    }
                    assert(entries_map(new_entries) =~= entries_map(old_entries).insert(key@, value));
                }
                self.entries = entries;
                return;
            }
            i = i + 1;
        }
        let ghost old_entries = self.entries@;
        let mut entries: Vec<(String, V)> = Vec::new();
        std::mem::swap(&mut entries, &mut self.entries);
        entries.push((key, value));
        proof {
            assert(entries@.drop_last() == old_entries);
            assert(entry_keys(entries@) =~= entry_keys(old_entries).push(entries@.last().0@));
        }
        self.entries = entries;
    }
}

impl<V> Default for StringMap<V> {
    /// An empty map.
    fn default() -> (out: Self)
        ensures
            out@ == Map::<Seq<char>, V>::empty(),
    {
        StringMap::new()
    }
}

/// A set of texts.
#[derive(Debug)]
pub struct StringSet {
    members: StringMap<()>,
}

impl View for StringSet {
    type V = Set<Seq<char>>;

    closed spec fn view(&self) -> Set<Seq<char>> {
        self.members@.dom()
    }
}

impl StringSet {
    /// An empty set.
    pub fn new() -> (out: Self)
        ensures
            out@ == Set::<Seq<char>>::empty(),
    {
        let out = StringSet { members: StringMap::new() };
        proof {
            assert(out@ =~= Set::<Seq<char>>::empty());
        }
        out
    }

    /// Whether `value` is a member.
    pub fn contains(&self, value: &str) -> (out: bool)
        ensures
            out == self@.contains(value@),
    {
        self.members.get(value).is_some()
    }

    /// This set with `value` added.
    pub fn insert(&mut self, value: String)
        ensures
            final(self)@ == old(self)@.insert(value@),
    {
        self.members.insert(value, ());
        proof {
            assert(self@ =~= old(self)@.insert(value@));
        }
    }
}

impl Default for StringSet {
    /// An empty set.
    fn default() -> (out: Self)
        ensures
            out@ == Set::<Seq<char>>::empty(),
    {
        StringSet::new()
    }
}

} // verus!
