//! A small map from text keys to values, kept as a list in which no key
//! occurs twice.

use crate::text::same_text;
use vstd::prelude::*;

verus! {

/// One entry of a [`TextMap`].
pub struct TextEntry<V> {
    pub key: String,
    pub value: V,
}

/// Whether no key occurs twice among some entries.
pub open spec fn entry_keys_distinct<V>(entries: Seq<TextEntry<V>>) -> bool {
    forall|i: int, j: int| 0 <= i < j < entries.len() ==> entries[i].key@ != entries[j].key@
}

/// The map that a list of entries stands for: later entries win.
pub open spec fn entries_map<V>(entries: Seq<TextEntry<V>>) -> Map<Seq<char>, V>
    decreases entries.len(),
{
    if entries.len() == 0 {
        Map::empty()
    } else {
        entries_map(entries.drop_last()).insert(entries.last().key@, entries.last().value)
    }
}

/// The keys of the map are the keys of the entries.
pub proof fn lemma_entries_map_domain<V>(entries: Seq<TextEntry<V>>, key: Seq<char>)
    ensures
        entries_map(entries).dom().contains(key) <==> exists|i: int|
            0 <= i < entries.len() && (#[trigger] entries[i]).key@ == key,
    decreases entries.len(),
{
    if entries.len() > 0 {
        let front = entries.drop_last();
        lemma_entries_map_domain(front, key);
        if entries_map(entries).dom().contains(key) {
            if entries.last().key@ == key {
                assert(entries[entries.len() - 1].key@ == key);
            } else {
                let i = choose|i: int| 0 <= i < front.len() && (#[trigger] front[i]).key@ == key;
                assert(entries[i].key@ == key);
            }
        }
        if exists|i: int| 0 <= i < entries.len() && (#[trigger] entries[i]).key@ == key {
            let i = choose|i: int| 0 <= i < entries.len() && (#[trigger] entries[i]).key@ == key;
            if i < entries.len() - 1 {
                assert(front[i].key@ == key);
            }
        }
    }
}

/// Where no key occurs twice, the map gives each entry's key its value, and
/// the list without an entry stands for the map without its key.
pub proof fn lemma_entries_map_remove<V>(entries: Seq<TextEntry<V>>, i: int)
    requires
        entry_keys_distinct(entries),
        0 <= i < entries.len(),
    ensures
        entries_map(entries).dom().contains(entries[i].key@),
        entries_map(entries)[entries[i].key@] == entries[i].value,
        entries_map(entries.remove(i)) =~= entries_map(entries).remove(entries[i].key@),
        entry_keys_distinct(entries.remove(i)),
    decreases entries.len(),
{
    let front = entries.drop_last();
    let last = entries.last();
    assert(entry_keys_distinct(front)) by {
        assert forall|a: int, b: int| 0 <= a < b < front.len() implies front[a].key@
            != front[b].key@ by {
            assert(front[a] == entries[a]);
            assert(front[b] == entries[b]);
        }
    }
    assert(entry_keys_distinct(entries.remove(i))) by {
        let out = entries.remove(i);
        assert forall|a: int, b: int| 0 <= a < b < out.len() implies out[a].key@
            != out[b].key@ by {
            let a2 = if a < i {
                a
            } else {
                a + 1
            };
            let b2 = if b < i {
                b
            } else {
                b + 1
            };
            assert(out[a] == entries[a2]);
            assert(out[b] == entries[b2]);
        }
    }
    if i == entries.len() - 1 {
        lemma_entries_map_domain(front, last.key@);
        if entries_map(front).dom().contains(last.key@) {
            let j = choose|j: int| 0 <= j < front.len() && (#[trigger] front[j]).key@ == last.key@;
            assert(front[j] == entries[j]);
            assert(false);
        }
        assert(entries.remove(i) =~= front);
    } else {
        lemma_entries_map_remove(front, i);
        assert(front[i] == entries[i]);
        assert(entries[i].key@ != last.key@);
        assert(entries.remove(i).drop_last() =~= front.remove(i));
        assert(entries.remove(i).last() == last);
    }
}

/// A map from text keys to values.
pub struct TextMap<V> {
    entries: Vec<TextEntry<V>>,
}

impl<V> View for TextMap<V> {
    type V = Map<Seq<char>, V>;

    closed spec fn view(&self) -> Map<Seq<char>, V> {
        entries_map(self.entries@)
    }
}

impl<V> TextMap<V> {
    #[verifier::type_invariant]
    spec fn well_formed(self) -> bool {
        entry_keys_distinct(self.entries@)
    }

    /// The empty map.
    pub fn new() -> (r: TextMap<V>)
        ensures
            r@ == Map::<Seq<char>, V>::empty(),
    {
        TextMap { entries: Vec::new() }
    }

    /// The position of the entry with the given key.
    fn position(&self, key: &str) -> (r: Option<usize>)
        ensures
            match r {
                Some(i) => i < self.entries@.len() && self.entries@[i as int].key@ == key@,
                None => forall|j: int|
                    0 <= j < self.entries@.len() ==> (#[trigger] self.entries@[j]).key@ != key@,
            },
    {
        let mut i: usize = 0;
        while i < self.entries.len()
            invariant
                i <= self.entries.len(),
                forall|j: int| 0 <= j < i ==> (#[trigger] self.entries@[j]).key@ != key@,
            decreases self.entries.len() - i,
        {
            if same_text(self.entries[i].key.as_str(), key) {
                return Some(i);
            }
            i = i + 1;
        }
        None
    }

    /// Whether the map has the key.
    pub fn contains_key(&self, key: &str) -> (r: bool)
        ensures
            r == self@.dom().contains(key@),
    {
        proof {
            lemma_entries_map_domain(self.entries@, key@);
        }
        self.position(key).is_some()
    }

    /// The value of a key, if the map has the key.
    pub fn get(&self, key: &str) -> (r: Option<&V>)
        ensures
            match r {
                Some(v) => self@.dom().contains(key@) && *v == self@[key@],
                None => !self@.dom().contains(key@),
            },
    {
        proof {
            use_type_invariant(self);
            lemma_entries_map_domain(self.entries@, key@);
        }
        match self.position(key) {
            Some(i) => {
                proof {
                    lemma_entries_map_remove(self.entries@, i as int);
                }
                Some(&self.entries[i].value)
            },
            None => None,
        }
    }

    /// Takes a key with its value out of the map.
    pub fn take(&mut self, key: &str) -> (r: Option<V>)
        ensures
            match r {
                Some(v) => old(self)@.dom().contains(key@) && v == old(self)@[key@],
                None => !old(self)@.dom().contains(key@),
            },
            final(self)@ == old(self)@.remove(key@),
    {
        proof {
            use_type_invariant(&*self);
            lemma_entries_map_domain(self.entries@, key@);
        }
        match self.position(key) {
            Some(i) => {
                proof {
                    lemma_entries_map_remove(self.entries@, i as int);
                }
                let mut entries: Vec<TextEntry<V>> = Vec::new();
                core::mem::swap(&mut self.entries, &mut entries);
                let entry = entries.remove(i);
                self.entries = entries;
                Some(entry.value)
            },
            None => {
                assert(self@.remove(key@) =~= self@);
                None
            },
        }
    }

    /// Gives a key a value, in place of the value it had.
    pub fn put(&mut self, key: String, value: V)
        ensures
            final(self)@ == old(self)@.insert(key@, value),
    {
        let ghost before = self@;
        let previous = self.take(key.as_str());
        proof {
            use_type_invariant(&*self);
            lemma_entries_map_domain(self.entries@, key@);
        }
        let ghost key_text = key@;
        let ghost without = self.entries@;
        let mut entries: Vec<TextEntry<V>> = Vec::new();
        core::mem::swap(&mut self.entries, &mut entries);
        entries.push(TextEntry { key, value });
        proof {
            assert(entries@.drop_last() =~= without);
            assert forall|a: int, b: int| 0 <= a < b < entries@.len() implies entries@[a].key@
                != entries@[b].key@ by {
                if b == without.len() {
                    assert(entries@[a] == without[a]);
                } else {
                    assert(entries@[a] == without[a]);
                    assert(entries@[b] == without[b]);
                }
            }
            assert(before.remove(key_text).insert(key_text, value) =~= before.insert(
                key_text,
                value,
            ));
        }
        self.entries = entries;
    }
}

} // verus!
