//! An agent's configuration: string keys bound to string values.

use vstd::prelude::*;

verus! {

/// The bindings of a configuration in the order in which their keys were
/// first written, each as a pair of key and value.
pub type Entries = Seq<(Seq<char>, Seq<char>)>;

/// The bindings that a vector of pairs of strings stands for.
pub open spec fn text_pairs(pairs: Seq<(String, String)>) -> Entries {
    pairs.map_values(|pair: (String, String)| (pair.0@, pair.1@))
}

/// Whether some binding of `entries` has the key `key`.
pub open spec fn has_key(entries: Entries, key: Seq<char>) -> bool {
    exists|i: int| 0 <= i < entries.len() && (#[trigger] entries[i]).0 == key
}

/// The place of a binding with the key `key`; meaningful where `has_key` holds.
pub open spec fn index_of_key(entries: Entries, key: Seq<char>) -> int {
    choose|i: int| 0 <= i < entries.len() && (#[trigger] entries[i]).0 == key
}

/// No two bindings share a key.
pub open spec fn keys_distinct(entries: Entries) -> bool {
    forall|i: int, j: int|
        0 <= i < j < entries.len() ==> (#[trigger] entries[i]).0 != (#[trigger] entries[j]).0
}

/// The value bound to `key`, if any.
pub open spec fn lookup(entries: Entries, key: Seq<char>) -> Option<Seq<char>> {
    if has_key(entries, key) {
        Some(entries[index_of_key(entries, key)].1)
    } else {
        None
    }
}

/// The bindings after `key` has been written with `value`: a key that is
/// already bound keeps its place and takes the new value, a new key goes to
/// the end.
pub open spec fn upsert(entries: Entries, key: Seq<char>, value: Seq<char>) -> Entries {
    if has_key(entries, key) {
        entries.update(index_of_key(entries, key), (key, value))
    } else {
        entries.push((key, value))
    }
}

/// The mapping that the bindings stand for.
pub open spec fn as_map(entries: Entries) -> Map<Seq<char>, Seq<char>> {
    Map::new(
        |key: Seq<char>| has_key(entries, key),
        |key: Seq<char>| entries[index_of_key(entries, key)].1,
    )
}

/// Among distinct keys, the place where a key is found is the place of its
/// binding.
pub proof fn lemma_key_found(entries: Entries, key: Seq<char>, at: int)
    requires
        keys_distinct(entries),
        0 <= at < entries.len(),
        entries[at].0 == key,
    ensures
        has_key(entries, key),
        index_of_key(entries, key) == at,
{
    let found = index_of_key(entries, key);
    if found < at {
        assert(entries[found].0 != entries[at].0);
    } else if at < found {
        assert(entries[at].0 != entries[found].0);
    }
}

/// Writing a key keeps the keys distinct.
pub proof fn lemma_upsert_keeps_keys_distinct(entries: Entries, key: Seq<char>, value: Seq<char>)
    requires
        keys_distinct(entries),
    ensures
        keys_distinct(upsert(entries, key, value)),
{
    let after = upsert(entries, key, value);
    if has_key(entries, key) {
        let at = index_of_key(entries, key);
        assert forall|i: int, j: int| 0 <= i < j < after.len() implies (#[trigger] after[i]).0 != (
        #[trigger] after[j]).0 by {
            assert(entries[i].0 != entries[j].0);
            assert(entries[at].0 == key);
        }
    } else {
        assert forall|i: int, j: int| 0 <= i < j < after.len() implies (#[trigger] after[i]).0 != (
        #[trigger] after[j]).0 by {
            if j < entries.len() {
                assert(entries[i].0 != entries[j].0);
            } else {
                assert(entries[i].0 != key);
            }
        }
    }
}

/// After a write, the written key is bound to the written value and every
/// other key is bound as before.
pub proof fn lemma_upsert_lookup(
    entries: Entries,
    key: Seq<char>,
    value: Seq<char>,
    other: Seq<char>,
)
    requires
        keys_distinct(entries),
    ensures
        lookup(upsert(entries, key, value), key) == Some(value),
        other != key ==> lookup(upsert(entries, key, value), other) == lookup(entries, other),
{
    let after = upsert(entries, key, value);
    lemma_upsert_keeps_keys_distinct(entries, key, value);
    if has_key(entries, key) {
        lemma_key_found(after, key, index_of_key(entries, key));
    } else {
        lemma_key_found(after, key, entries.len() as int);
    }
    if other != key {
        if has_key(entries, other) {
            let was = index_of_key(entries, other);
            assert(after[was] == entries[was]);
            lemma_key_found(after, other, was);
        } else if has_key(after, other) {
            let now = index_of_key(after, other);
            assert(entries[now].0 == other);
        }
    }
}

/// A write changes the mapping at the written key and nowhere else.
pub proof fn lemma_upsert_is_map_insert(entries: Entries, key: Seq<char>, value: Seq<char>)
    requires
        keys_distinct(entries),
    ensures
        as_map(upsert(entries, key, value)) == as_map(entries).insert(key, value),
{
    let after = upsert(entries, key, value);
    let left = as_map(after);
    let right = as_map(entries).insert(key, value);
    assert forall|k: Seq<char>| #[trigger] left.dom().contains(k) == right.dom().contains(k) by {
        lemma_upsert_lookup(entries, key, value, k);
    }
    assert forall|k: Seq<char>| #[trigger] left.dom().contains(k) implies left[k] == right[k] by {
        lemma_upsert_lookup(entries, key, value, k);
    }
    assert(left =~= right);
}

/// A configuration: string keys, each bound to one string value.
///
/// Keys are unique. Writing a key that is already bound replaces its value;
/// the bindings keep the order in which their keys were first written.
#[derive(Debug)]
pub struct Config {
    items: Vec<(String, String)>,
}

impl View for Config {
    type V = Map<Seq<char>, Seq<char>>;

    /// The mapping from keys to values.
    open spec fn view(&self) -> Map<Seq<char>, Seq<char>> {
        as_map(self.entries())
    }
}

impl Config {
    /// What holds of every configuration: its keys are distinct.
    #[verifier::type_invariant]
    pub open spec fn well_formed(&self) -> bool {
        keys_distinct(self.entries())
    }

    /// The bindings in the order in which their keys were first written.
    pub closed spec fn entries(&self) -> Entries {
        text_pairs(self.items@)
    }

    /// Creates a configuration without bindings.
    pub fn new() -> (config: Config)
        ensures
            config.entries() == Seq::<(Seq<char>, Seq<char>)>::empty(),
            config@ == Map::<Seq<char>, Seq<char>>::empty(),
    {
        let config = Config { items: Vec::new() };
        assert(config.entries() =~= Seq::<(Seq<char>, Seq<char>)>::empty());
        assert(config@ =~= Map::<Seq<char>, Seq<char>>::empty());
        config
    }

    /// The bindings as pairs of key and value, in the order in which their
    /// keys were first written.
    pub fn pairs(&self) -> (pairs: &Vec<(String, String)>)
        ensures
            text_pairs(pairs@) == self.entries(),
            keys_distinct(self.entries()),
    {
        proof {
            use_type_invariant(self);
        }
        &self.items
    }

    /// The number of bindings.
    pub fn len(&self) -> (n: usize)
        ensures
            n == self.entries().len(),
    {
        self.items.len()
    }

    /// Returns the value bound to `key`, or `None` if the key is not bound.
    pub fn get(&self, key: &str) -> (found: Option<&String>)
        ensures
            match found {
                Some(value) => lookup(self.entries(), key@) == Some(value@),
                None => lookup(self.entries(), key@) is None,
            },
            found is Some <==> self@.contains_key(key@),
            found matches Some(value) ==> value@ == self@[key@],
    {
        proof {
            use_type_invariant(self);
        }
        let wanted = key.to_owned();
        let mut i: usize = 0;
        while i < self.items.len()
            invariant
                i <= self.items.len(),
                wanted@ == key@,
                keys_distinct(self.entries()),
                forall|j: int| 0 <= j < i ==> (#[trigger] self.entries()[j]).0 != key@,
            decreases self.items.len() - i,
        {
            if self.items[i].0 == wanted {
                proof {
                    lemma_key_found(self.entries(), key@, i as int);
                }
                return Some(&self.items[i].1);
            }
            i += 1;
        }
        None
    }

    /// Binds `key` to `value`, replacing the value of a key that is already
    /// bound.
    pub fn insert(&mut self, key: String, value: String)
        ensures
            final(self).entries() == upsert(old(self).entries(), key@, value@),
            final(self)@ == old(self)@.insert(key@, value@),
    {
        proof {
            use_type_invariant(&*self);
            lemma_upsert_keeps_keys_distinct(self.entries(), key@, value@);
            lemma_upsert_is_map_insert(self.entries(), key@, value@);
        }
        let ghost before = self.entries();
        let mut items: Vec<(String, String)> = Vec::new();
        std::mem::swap(&mut self.items, &mut items);
        let mut i: usize = 0;
        while i < items.len()
            invariant
                i <= items.len(),
                before == text_pairs(items@),
                before == old(self).entries(),
                keys_distinct(before),
                keys_distinct(upsert(before, key@, value@)),
                as_map(upsert(before, key@, value@)) == as_map(before).insert(key@, value@),
                forall|j: int| 0 <= j < i ==> (#[trigger] before[j]).0 != key@,
            decreases items.len() - i,
        {
            if items[i].0 == key {
                proof {
                    lemma_key_found(before, key@, i as int);
                }
                items.set(i, (key, value));
                assert(text_pairs(items@) =~= upsert(before, key@, value@));
                self.items = items;
                return ;
            }
            i += 1;
        }
        items.push((key, value));
        assert(text_pairs(items@) =~= upsert(before, key@, value@));
        self.items = items;
    }
}

impl Clone for Config {
    /// Copies the configuration, binding for binding.
    fn clone(&self) -> (copy: Config)
        ensures
            copy.entries() == self.entries(),
            copy@ == self@,
    {
        proof {
            use_type_invariant(self);
        }
        let mut items: Vec<(String, String)> = Vec::new();
        let mut i: usize = 0;
        while i < self.items.len()
            invariant
                i <= self.items.len(),
                items.len() == i,
                forall|j: int|
                    0 <= j < i ==> (#[trigger] items[j]).0@ == self.items[j].0@ && items[j].1@
                        == self.items[j].1@,
            decreases self.items.len() - i,
        {
            let key = self.items[i].0.clone();
            let value = self.items[i].1.clone();
            items.push((key, value));
            i += 1;
        }
        assert(text_pairs(items@) =~= self.entries());
        Config { items }
    }
}

} // verus!
