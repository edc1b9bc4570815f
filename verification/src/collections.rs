use crate::text::{contains_name, names_of, str_eq};
use vstd::prelude::*;

verus! {

/// A map from strings to values, held as a list of entries in which the
/// last entry for a key is the one that counts.
#[derive(Debug, Clone)]
pub struct StringMap<T> {
    pub(crate) entries: Vec<(String, T)>,
}

/// The map that a list of entries stands for.
pub open spec fn entries_model<T>(s: Seq<(String, T)>) -> Map<Seq<char>, T>
    decreases s.len(),
{
    if s.len() == 0 {
        Map::empty()
    } else {
        entries_model(s.drop_last()).insert(s.last().0@, s.last().1)
    }
}

/// Whether no entry of `s` from `from` on has the key `key`.
pub open spec fn no_entry_from<T>(s: Seq<(String, T)>, key: Seq<char>, from: int) -> bool {
    forall|j: int| from <= j < s.len() ==> (#[trigger] s[j]).0@ != key
}

/// Looking a key up in the map is finding its last entry.
pub proof fn lemma_entries_lookup<T>(s: Seq<(String, T)>, key: Seq<char>, i: int)
    requires
        -1 <= i < s.len(),
        i >= 0 ==> s[i].0@ == key,
        no_entry_from(s, key, i + 1),
    ensures
        i >= 0 ==> entries_model(s).contains_key(key) && entries_model(s)[key] == s[i].1,
        i < 0 ==> !entries_model(s).contains_key(key),
    decreases s.len(),
{
    if s.len() > 0 {
        if i == s.len() - 1 {
        } else {
            assert(s.last() == s[s.len() - 1]);
            assert forall|j: int| i + 1 <= j < s.drop_last().len() implies (
            #[trigger] s.drop_last()[j]).0@ != key by {
                assert(s.drop_last()[j] == s[j]);
            }
            if i >= 0 {
                assert(s.drop_last()[i] == s[i]);
            }
            lemma_entries_lookup(s.drop_last(), key, i);
        }
    }
}

/// Replacing the last entry of a key sets that key in the map.
pub proof fn lemma_entries_replace<T>(s: Seq<(String, T)>, i: int, entry: (String, T))
    requires
        0 <= i < s.len(),
        s[i].0@ == entry.0@,
        no_entry_from(s, entry.0@, i + 1),
    ensures
        entries_model(s.update(i, entry)) == entries_model(s).insert(entry.0@, entry.1),
    decreases s.len(),
{
    let t = s.update(i, entry);
    if i == s.len() - 1 {
        assert(t.drop_last() == s.drop_last());
        assert(entries_model(t) =~= entries_model(s).insert(entry.0@, entry.1));
    } else {
        assert(s.last() == s[s.len() - 1]);
        assert(t.last() == s.last());
        assert(t.drop_last() == s.drop_last().update(i, entry));
        assert forall|j: int| i + 1 <= j < s.drop_last().len() implies (
        #[trigger] s.drop_last()[j]).0@ != entry.0@ by {
            assert(s.drop_last()[j] == s[j]);
        }
        lemma_entries_replace(s.drop_last(), i, entry);
        assert(entries_model(t) =~= entries_model(s).insert(entry.0@, entry.1));
    }
}

impl<T> View for StringMap<T> {
    type V = Map<Seq<char>, T>;

    closed spec fn view(&self) -> Map<Seq<char>, T> {
        entries_model(self.entries@)
    }
}

impl<T> StringMap<T> {
    /// A map without entries.
    pub fn new() -> (m: Self)
        ensures
            m@ == Map::<Seq<char>, T>::empty(),
    {
        StringMap { entries: Vec::new() }
    }

    /// Sets the value of a key and leaves every other key as it was.
    pub fn insert(&mut self, key: String, value: T)
        ensures
            final(self)@ == old(self)@.insert(key@, value),
    {
        let mut i: usize = self.entries.len();
        while i > 0
            invariant
                i <= self.entries.len(),
                *self == *old(self),
                no_entry_from(self.entries@, key@, i as int),
            decreases i,
        {
            i = i - 1;
            if str_eq(self.entries[i].0.as_str(), key.as_str()) {
                let entry = (key, value);
                proof {
                    lemma_entries_replace(self.entries@, i as int, entry);
                }
                self.entries.set(i, entry);
                return ;
            }
        }
        self.entries.push((key, value));
        assert(self.entries@.drop_last() == old(self).entries@);
    }

    /// The value of a key, if it has one.
    pub fn get(&self, key: &str) -> (found: Option<&T>)
        ensures
            match found {
                Some(v) => self@.contains_key(key@) && *v == self@[key@],
                None => !self@.contains_key(key@),
            },
    {
        let mut i: usize = self.entries.len();
        while i > 0
            invariant
                i <= self.entries.len(),
                no_entry_from(self.entries@, key@, i as int),
            decreases i,
        {
            i = i - 1;
            if str_eq(self.entries[i].0.as_str(), key) {
                proof {
                    lemma_entries_lookup(self.entries@, key@, i as int);
                }
                return Some(&self.entries[i].1);
            }
        }
        proof {
            lemma_entries_lookup(self.entries@, key@, -1);
        }
        None
    }

    /// The keys that have a value, each once, in the order in which
    /// they first got one.
    pub fn keys(&self) -> (keys: Vec<String>)
        ensures
            forall|k: Seq<char>| self@.contains_key(k) <==> names_of(keys@).contains(k),
    {
        let mut keys: Vec<String> = Vec::new();
        let mut i: usize = 0;
        assert(self.entries@.subrange(0, 0) =~= Seq::<(String, T)>::empty());
        while i < self.entries.len()
            invariant
                i <= self.entries.len(),
                forall|k: Seq<char>|
                    entries_model(self.entries@.subrange(0, i as int)).contains_key(k)
                        <==> names_of(keys@).contains(k),
            decreases self.entries.len() - i,
        {
            let ghost seen = names_of(keys@);
            let ghost prefix = self.entries@.subrange(0, i + 1);
            assert(prefix.drop_last() =~= self.entries@.subrange(0, i as int));
            assert(prefix.last() == self.entries@[i as int]);
            let known = contains_name(&keys, self.entries[i].0.as_str());
            if !known {
                keys.push(self.entries[i].0.clone());
                assert(names_of(keys@) =~= seen.push(self.entries@[i as int].0@));
                assert forall|k: Seq<char>| entries_model(prefix).contains_key(k) implies names_of(
                    keys@,
                ).contains(k) by {
                    if k == self.entries@[i as int].0@ {
                        assert(names_of(keys@)[seen.len() as int] == k);
                    } else {
                        assert(seen.contains(k));
                        let j = choose|j: int| 0 <= j < seen.len() && seen[j] == k;
                        assert(names_of(keys@)[j] == k);
                    }
                }
                assert forall|k: Seq<char>| names_of(keys@).contains(k) implies entries_model(
                    prefix,
                ).contains_key(k) by {
                    let j = choose|j: int| 0 <= j < names_of(keys@).len() && names_of(keys@)[j] == k;
                    if j < seen.len() {
                        assert(seen[j] == k);
                        assert(seen.contains(k));
                    }
                }
            }
            i = i + 1;
        }
        assert(self.entries@.subrange(0, i as int) =~= self.entries@);
        keys
    }

    /// Whether the key has a value.
    pub fn contains_key(&self, key: &str) -> (found: bool)
        ensures
            found == self@.contains_key(key@),
    {
        self.get(key).is_some()
    }

    /// Takes every entry out.
    pub fn clear(&mut self)
        ensures
            final(self)@ == Map::<Seq<char>, T>::empty(),
    {
        self.entries.clear();
    }

    /// Whether the map has no entry.
    pub fn is_empty(&self) -> (empty: bool)
        ensures
            empty == (self@ == Map::<Seq<char>, T>::empty()),
    {
        let empty = self.entries.len() == 0;
        proof {
            if !empty {
                let last = self.entries@.last();
                assert(entries_model(self.entries@).contains_key(last.0@));
                assert(!Map::<Seq<char>, T>::empty().contains_key(last.0@));
            }
        }
        empty
    }
}

} // verus!
