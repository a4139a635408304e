//! A map whose keys are texts.
use vstd::prelude::*;

use crate::text::same_text;

verus! {

/// A map from texts to values, kept as a list of entries. Of two entries with the same key the
/// first counts.
#[derive(Debug)]
pub struct TextMap<V> {
    pub entries: Vec<(String, V)>,
}

/// The position of the first entry for `key`, or the number of entries if there is none.
pub open spec fn entry_index<V>(entries: Seq<(String, V)>, key: Seq<char>) -> int
    decreases entries.len(),
{
    if entries.len() == 0 || entries[0].0@ == key {
        0
    } else {
        1 + entry_index(entries.skip(1), key)
    }
}

impl<V: View> View for TextMap<V> {
    type V = Map<Seq<char>, V::V>;

    open spec fn view(&self) -> Map<Seq<char>, V::V> {
        Map::new(
            |key: Seq<char>| entry_index(self.entries@, key) < self.entries@.len(),
            |key: Seq<char>| self.entries@[entry_index(self.entries@, key)].1@,
        )
    }
}

/// The first entry for a key is one for it, and none before it is.
pub proof fn lemma_entry_index<V>(entries: Seq<(String, V)>, key: Seq<char>)
    ensures
        0 <= entry_index(entries, key) <= entries.len(),
        entry_index(entries, key) < entries.len() ==> entries[entry_index(entries, key)].0@ == key,
        forall|i: int|
            0 <= i < entry_index(entries, key) ==> (#[trigger] entries[i]).0@ != key,
    decreases entries.len(),
{
    if entries.len() > 0 && entries[0].0@ != key {
        lemma_entry_index(entries.skip(1), key);
        assert forall|i: int| 0 <= i < entry_index(entries, key) implies (
        #[trigger] entries[i]).0@ != key by {
            if i > 0 {
                assert(entries[i] == entries.skip(1)[i - 1]);
            }
        }
    }
}

/// Only the first entry for a key has one for it and none before.
pub proof fn lemma_entry_index_is<V>(entries: Seq<(String, V)>, key: Seq<char>, at: int)
    requires
        0 <= at <= entries.len(),
        at < entries.len() ==> entries[at].0@ == key,
        forall|i: int| 0 <= i < at ==> (#[trigger] entries[i]).0@ != key,
    ensures
        entry_index(entries, key) == at,
{
    lemma_entry_index(entries, key);
    let found = entry_index(entries, key);
    if found < at {
        assert(entries[found].0@ != key);
    }
}

impl<V: View> TextMap<V> {
    /// A map without entries.
    pub fn new() -> (map: Self)
        ensures
            map@ == Map::<Seq<char>, V::V>::empty(),
    {
        let map = TextMap { entries: Vec::new() };
        assert(map@ =~= Map::<Seq<char>, V::V>::empty());
        map
    }

    /// The position of the first entry for `key`, or the number of entries if there is none.
    fn position(&self, key: &str) -> (at: usize)
        ensures
            at == entry_index(self.entries@, key@),
            at <= self.entries@.len(),
    {
        let total = self.entries.len();
        let mut at: usize = 0;
        while at < total && !same_text(self.entries[at].0.as_str(), key)
            invariant
                total == self.entries@.len(),
                at <= total,
                forall|i: int| 0 <= i < at ==> (#[trigger] self.entries@[i]).0@ != key@,
            decreases total - at,
        {
            at = at + 1;
        }
        proof {
            lemma_entry_index_is(self.entries@, key@, at as int);
        }
        at
    }

    /// Whether the map has no entries.
    pub fn is_empty(&self) -> (empty: bool)
        ensures
            empty == (self@ == Map::<Seq<char>, V::V>::empty()),
    {
        if self.entries.len() == 0 {
            assert(self@ =~= Map::<Seq<char>, V::V>::empty());
            true
        } else {
            proof {
                let key = self.entries@[0].0@;
                assert(entry_index(self.entries@, key) == 0);
                assert(self@.contains_key(key));
                assert(!Map::<Seq<char>, V::V>::empty().contains_key(key));
            }
            false
        }
    }

    /// The value for `key`.
    pub fn get(&self, key: &str) -> (value: Option<&V>)
        ensures
            match value {
                Some(value) => self@.contains_key(key@) && value@ == self@[key@],
                None => !self@.contains_key(key@),
            },
    {
        let at = self.position(key);
        if at < self.entries.len() {
            Some(&self.entries[at].1)
        } else {
            None
        }
    }

    /// Sets the value for `key`.
    pub fn insert(&mut self, key: &str, value: V)
        ensures
            final(self)@ == old(self)@.insert(key@, value@),
    {
        let at = self.position(key);
        let ghost before = self.entries@;
        if at < self.entries.len() {
            self.entries[at].1 = value;
        } else {
            self.entries.push((key.to_owned(), value));
        }
        let ghost after = self.entries@;
        proof {
            lemma_entry_index(before, key@);
            assert forall|other: Seq<char>| #[trigger]
                entry_index(after, other) == (if other == key@ {
                    at as int
                } else if entry_index(before, other) < before.len() {
                    entry_index(before, other)
                } else {
                    after.len() as int
                }) by {
                lemma_entry_index(before, other);
                let found = entry_index(before, other);
                if other == key@ {
                    assert forall|i: int| 0 <= i < at implies (#[trigger] after[i]).0@ != other by {
                        assert(before[i].0@ != other);
                    }
                    lemma_entry_index_is(after, other, at as int);
                } else if found < before.len() {
                    assert forall|i: int| 0 <= i < found implies (#[trigger] after[i]).0@ != other by {
                        assert(before[i].0@ != other);
                    }
                    lemma_entry_index_is(after, other, found);
                } else {
                    assert forall|i: int| 0 <= i < after.len() implies (
                    #[trigger] after[i]).0@ != other by {
                        if i < before.len() {
                            assert(before[i].0@ != other);
                        }
                    }
                    lemma_entry_index_is(after, other, after.len() as int);
                }
            }
            assert forall|other: Seq<char>| #[trigger] self@.contains_key(other) == (other == key@
                || old(self)@.contains_key(other)) by {
                lemma_entry_index(before, other);
                assert(entry_index(after, other) <= after.len());
            }
            assert forall|other: Seq<char>| #[trigger] self@.contains_key(other) implies self@[other]
                == old(self)@.insert(key@, value@)[other] by {
                lemma_entry_index(before, other);
                assert(entry_index(after, other) <= after.len());
            }
            assert(self@ =~= old(self)@.insert(key@, value@));
        }
    }
}

} // verus!
