//! A map keyed by text that keeps its keys in order.
use crate::text::{bytes_before_irreflexive, bytes_before_transitive, compare_text, Order};
#[allow(unused_imports)]
use crate::text::text_before;
use vstd::prelude::*;
use vstd::utf8::encode_utf8;

verus! {

/// A map from text to `V`. No key occurs twice, and the entries stand in the order of their keys.
#[derive(Debug)]
pub struct TextMap<V> {
    pub(crate) entries: Vec<(String, V)>,
}

/// The keys, in the order in which the entries are held.
spec fn keys_of<V>(entries: Seq<(String, V)>) -> Seq<Seq<char>> {
    entries.map_values(|entry: (String, V)| entry.0@)
}

/// The keys ascend strictly.
pub open spec fn ascending(keys: Seq<Seq<char>>) -> bool {
    forall|i: int, j: int| 0 <= i < j < keys.len() ==> text_before(#[trigger] keys[i], #[trigger] keys[j])
}

/// What a list of entries maps a key to.
spec fn map_of<V>(entries: Seq<(String, V)>) -> Map<Seq<char>, V> {
    Map::new(
        |key: Seq<char>| keys_of(entries).contains(key),
        |key: Seq<char>| entries[keys_of(entries).index_of(key)].1,
    )
}

proof fn ascending_keys_differ(keys: Seq<Seq<char>>)
    requires
        ascending(keys),
    ensures
        keys.no_duplicates(),
{
    assert forall|i: int, j: int| 0 <= i < keys.len() && 0 <= j < keys.len() && i != j implies keys[i]
        != keys[j] by {
        let (a, b) = if i < j { (keys[i], keys[j]) } else { (keys[j], keys[i]) };
        assert(text_before(a, b));
        bytes_before_irreflexive(encode_utf8(a));
    }
}

/// In a list without repeated keys, the entry that holds a key is the one the key is mapped to.
proof fn entry_is_mapped<V>(entries: Seq<(String, V)>, at: int)
    requires
        keys_of(entries).no_duplicates(),
        0 <= at < entries.len(),
    ensures
        map_of(entries).contains_key(entries[at].0@),
        map_of(entries)[entries[at].0@] == entries[at].1,
{
    let keys = keys_of(entries);
    assert(keys[at] == entries[at].0@);
    let found = keys.index_of(entries[at].0@);
    assert(keys.contains(entries[at].0@));
    assert(keys[found] == keys[at]);
}

impl<V> TextMap<V> {
    #[verifier::type_invariant]
    spec fn keys_ascend(self) -> bool {
        ascending(keys_of(self.entries@))
    }

    /// The keys, in ascending order.
    pub closed spec fn keys(self) -> Seq<Seq<char>> {
        keys_of(self.entries@)
    }

    /// Where the map keeps what it holds for a key.
    pub(crate) proof fn place_of(self, key: Seq<char>)
        requires
            self@.contains_key(key),
        ensures
            0 <= self.keys().index_of(key) < self.entries@.len(),
            self.entries@[self.keys().index_of(key)].1 == self@[key],
    {
        assert(self.keys().contains(key));
    }

    /// A map that holds nothing.
    pub fn new() -> (map: TextMap<V>)
        ensures
            map@ == Map::<Seq<char>, V>::empty(),
            map.keys() == Seq::<Seq<char>>::empty(),
    {
        let entries: Vec<(String, V)> = Vec::new();
        assert(keys_of(entries@) =~= Seq::empty());
        assert(map_of(entries@) =~= Map::empty());
        TextMap { entries }
    }

    /// How many keys the map holds.
    pub fn len(&self) -> (len: usize)
        ensures
            len == self.keys().len(),
            ascending(self.keys()),
            forall|key: Seq<char>| self.keys().contains(key) <==> #[trigger] self@.contains_key(key),
    {
        proof {
            use_type_invariant(self);
        }
        self.entries.len()
    }

    /// The entry at a place in the order of the keys.
    pub fn entry(&self, at: usize) -> (entry: (&str, &V))
        requires
            at < self.keys().len(),
        ensures
            entry.0@ == self.keys()[at as int],
            self@.contains_key(entry.0@),
            self@[entry.0@] == *entry.1,
    {
        proof {
            use_type_invariant(self);
            ascending_keys_differ(keys_of(self.entries@));
            entry_is_mapped(self.entries@, at as int);
        }
        (self.entries[at].0.as_str(), &self.entries[at].1)
    }

    /// The place of a key, or the place where it would have to stand.
    fn search(&self, key: &str) -> (at: (usize, bool))
        ensures
            at.0 <= self.entries@.len(),
            forall|i: int| 0 <= i < at.0 ==> text_before(#[trigger] keys_of(self.entries@)[i], key@),
            at.1 ==> at.0 < self.entries@.len() && keys_of(self.entries@)[at.0 as int] == key@,
            !at.1 ==> forall|i: int|
                at.0 <= i < self.entries@.len() ==> text_before(key@, #[trigger] keys_of(self.entries@)[i]),
    {
        proof {
            use_type_invariant(self);
        }
        let ghost keys = keys_of(self.entries@);
        let mut at: usize = 0;
        while at < self.entries.len()
            invariant
                keys == keys_of(self.entries@),
                ascending(keys),
                at <= self.entries@.len(),
                forall|i: int| 0 <= i < at ==> text_before(#[trigger] keys[i], key@),
            decreases self.entries@.len() - at,
        {
            assert(keys[at as int] == self.entries@[at as int].0@);
            match compare_text(self.entries[at].0.as_str(), key) {
                Order::Less => {},
                Order::Equal => {
                    return (at, true);
                },
                Order::Greater => {
                    assert forall|i: int| at <= i < keys.len() implies text_before(
                        key@,
                        #[trigger] keys[i],
                    ) by {
                        if at < i {
                            bytes_before_transitive(
                                encode_utf8(key@),
                                encode_utf8(keys[at as int]),
                                encode_utf8(keys[i]),
                            );
                        }
                    }
                    return (at, false);
                },
            }
            at += 1;
        }
        (at, false)
    }

    /// The keys held are exactly those that a search finds.
    proof fn search_decides(self, key: Seq<char>, at: int, found: bool)
        requires
            ascending(keys_of(self.entries@)),
            0 <= at <= self.entries@.len(),
            forall|i: int| 0 <= i < at ==> text_before(#[trigger] keys_of(self.entries@)[i], key),
            found ==> at < self.entries@.len() && keys_of(self.entries@)[at] == key,
            !found ==> forall|i: int|
                at <= i < self.entries@.len() ==> text_before(key, #[trigger] keys_of(self.entries@)[i]),
        ensures
            found == self@.contains_key(key),
            found ==> self@[key] == self.entries@[at].1,
    {
        let keys = keys_of(self.entries@);
        ascending_keys_differ(keys);
        bytes_before_irreflexive(encode_utf8(key));
        if found {
            entry_is_mapped(self.entries@, at);
        } else if keys.contains(key) {
            let i = keys.index_of(key);
            assert(keys[i] == key);
        }
    }

    /// What the map holds for a key.
    pub fn get(&self, key: &str) -> (value: Option<&V>)
        ensures
            value is Some <==> self@.contains_key(key@),
            value matches Some(v) ==> *v == self@[key@],
    {
        let (at, found) = self.search(key);
        proof {
            use_type_invariant(self);
            self.search_decides(key@, at as int, found);
        }
        if found {
            Some(&self.entries[at].1)
        } else {
            None
        }
    }

    /// The map with `key` set to `value`, whatever it held before.
    pub fn with(self, key: String, value: V) -> (map: TextMap<V>)
        ensures
            map@ == self@.insert(key@, value),
    {
        let (at, found) = self.search(key.as_str());
        proof {
            use_type_invariant(&self);
            self.search_decides(key@, at as int, found);
        }
        let ghost before = self.entries@;
        let ghost keys = keys_of(before);
        let ghost entry = (key, value);
        let mut entries = self.entries;
        if found {
            entries.remove(at);
        }
        let ghost rest = entries@;
        entries.insert(at, (key, value));
        proof {
            let after = entries@;
            let new_keys = keys_of(after);
            assert forall|i: int, j: int| 0 <= i < j < new_keys.len() implies text_before(
                #[trigger] new_keys[i],
                #[trigger] new_keys[j],
            ) by {
                let shift: int = if found { 0 } else { 1 };
                let old_i = if i <= at { i } else { i - shift };
                let old_j = if j <= at { j } else { j - shift };
                if i != at {
                    assert(new_keys[i] == keys[old_i]);
                }
                if j != at {
                    assert(new_keys[j] == keys[old_j]);
                }
                if found {
                    assert(keys[at as int] == key@);
                }
            }
            ascending_keys_differ(new_keys);
            ascending_keys_differ(keys);
            assert(after[at as int] == entry);
            entry_is_mapped(after, at as int);
            assert forall|k: Seq<char>| #[trigger] map_of(after).contains_key(k) == map_of(before).insert(
                key@,
                value,
            ).contains_key(k) by {
                if k != key@ {
                    if new_keys.contains(k) {
                        let i = new_keys.index_of(k);
                        let shift: int = if found { 0 } else { 1 };
                        let old_i = if i <= at { i } else { i - shift };
                        assert(keys[old_i] == k);
                    }
                    if keys.contains(k) {
                        let i = keys.index_of(k);
                        let shift: int = if found { 0 } else { 1 };
                        let new_i = if i < at { i } else { i + shift };
                        assert(new_keys[new_i] == k);
                    }
                }
            }
            assert forall|k: Seq<char>| map_of(before).contains_key(k) && k != key@ implies #[trigger] map_of(
                after,
            )[k] == map_of(before)[k] by {
                let i = keys.index_of(k);
                assert(keys[i] == k);
                let shift: int = if found { 0 } else { 1 };
                let new_i = if i < at { i } else { i + shift };
                assert(after[new_i] == before[i]);
                entry_is_mapped(after, new_i);
                entry_is_mapped(before, i);
            }
            assert(map_of(after) =~= map_of(before).insert(key@, value));
        }
        TextMap { entries }
    }

    /// What the map held for a key, taken out of it.
    pub fn take(self, key: &str) -> (value: Option<V>)
        ensures
            value is Some <==> self@.contains_key(key@),
            value matches Some(v) ==> v == self@[key@],
    {
        let (at, found) = self.search(key);
        proof {
            use_type_invariant(&self);
            self.search_decides(key@, at as int, found);
        }
        if found {
            let mut entries = self.entries;
            Some(entries.swap_remove(at).1)
        } else {
            None
        }
    }
}

impl<V> View for TextMap<V> {
    type V = Map<Seq<char>, V>;

    closed spec fn view(&self) -> Map<Seq<char>, V> {
        map_of(self.entries@)
    }
}

} // verus!
