//! Small collections keyed by text.

use crate::words::{
    comes_before, lemma_bytes_order, lemma_bytes_order_transitive, same_text, text_before_in_order,
};
use vstd::prelude::*;
use vstd::utf8::encode_utf8;

verus! {

/// The texts of a list.
pub open spec fn texts(items: Seq<String>) -> Seq<Seq<char>> {
    items.map_values(|item: String| item@)
}

/// A set of texts.
pub struct TextSet {
    pub items: Vec<String>,
}

impl View for TextSet {
    type V = Set<Seq<char>>;

    open spec fn view(&self) -> Set<Seq<char>> {
        texts(self.items@).to_set()
    }
}

impl TextSet {
    /// No text stands in the set twice.
    pub open spec fn wf(&self) -> bool {
        texts(self.items@).no_duplicates()
    }

    pub fn new() -> (set: TextSet)
        ensures
            set@ == Set::<Seq<char>>::empty(),
            set.wf(),
    {
        let set = TextSet { items: Vec::new() };
        assert(set@ =~= Set::<Seq<char>>::empty());
        set
    }

    pub fn len(&self) -> (len: usize)
        requires
            self.wf(),
        ensures
            len == self@.len(),
    {
        proof {
            texts(self.items@).unique_seq_to_set();
        }
        self.items.len()
    }

    fn position(&self, text: &str) -> (found: Option<usize>)
        ensures
            match found {
                Some(index) => index < self.items@.len() && self.items@[index as int]@ == text@,
                None => !self@.contains(text@),
            },
            found is Some ==> self@.contains(text@),
    {
        let mut index: usize = 0;
        while index < self.items.len()
            invariant
                index <= self.items@.len(),
                forall|i: int| 0 <= i < index ==> (#[trigger] self.items@[i])@ != text@,
            decreases self.items@.len() - index,
        {
            if same_text(self.items[index].as_str(), text) {
                assert(texts(self.items@)[index as int] == text@);
                return Some(index);
            }
            index += 1;
        }
        proof {
            if self@.contains(text@) {
                let i = choose|i: int|
                    0 <= i < texts(self.items@).len() && texts(self.items@)[i] == text@;
                assert(self.items@[i]@ == text@);
            }
        }
        None
    }

    pub fn contains(&self, text: &str) -> (found: bool)
        ensures
            found == self@.contains(text@),
    {
        self.position(text).is_some()
    }

    pub fn insert(&mut self, text: String)
        requires
            old(self).wf(),
        ensures
            final(self)@ == old(self)@.insert(text@),
            final(self).wf(),
    {
        if self.contains(text.as_str()) {
            assert(self@.insert(text@) =~= self@);
            return;
        }
        let ghost before = texts(self.items@);
        self.items.push(text);
        proof {
            let after = texts(self.items@);
            assert(after =~= before.push(text@));
            assert(self@ =~= before.to_set().insert(text@)) by {
                assert forall|t: Seq<char>|
                    after.to_set().contains(t) <==> before.to_set().insert(text@).contains(t) by {
                    if before.contains(t) {
                        let i = choose|i: int| 0 <= i < before.len() && before[i] == t;
                        assert(after[i] == t);
                    }
                    if t == text@ {
                        assert(after[after.len() - 1] == t);
                    }
                    if after.contains(t) && t != text@ {
                        let i = choose|i: int| 0 <= i < after.len() && after[i] == t;
                        assert(before[i] == t);
                    }
                }
            }
            assert forall|i: int, j: int|
                0 <= i < after.len() && 0 <= j < after.len() && i != j implies after[i]
                != after[j] by {
                if i == before.len() {
                    assert(before[j] == after[j]);
                    assert(before.contains(after[j]));
                } else if j == before.len() {
                    assert(before[i] == after[i]);
                    assert(before.contains(after[i]));
                } else {
                    assert(before[i] == after[i] && before[j] == after[j]);
                }
            }
        }
    }

    pub fn remove(&mut self, text: &str)
        requires
            old(self).wf(),
        ensures
            final(self)@ == old(self)@.remove(text@),
            final(self).wf(),
    {
        match self.position(text) {
            Some(index) => {
                let ghost before = texts(self.items@);
                self.items.remove(index);
                proof {
                    let after = texts(self.items@);
                    assert(before[index as int] == text@);
                    assert(after =~= before.remove(index as int));
                    assert(self@ =~= before.to_set().remove(text@)) by {
                        assert forall|t: Seq<char>|
                            after.to_set().contains(t) <==> before.to_set().remove(text@).contains(
                                t,
                            ) by {
                            if after.contains(t) {
                                let i = choose|i: int| 0 <= i < after.len() && after[i] == t;
                                if i < index {
                                    assert(before[i] == t);
                                } else {
                                    assert(before[i + 1] == t);
                                }
                            }
                            if before.contains(t) && t != text@ {
                                let i = choose|i: int| 0 <= i < before.len() && before[i] == t;
                                if i < index {
                                    assert(after[i] == t);
                                } else {
                                    assert(after[i - 1] == t);
                                }
                            }
                        }
                    }
                }
            },
            None => {
                assert(self@.remove(text@) =~= self@);
            },
        }
    }
}

/// Values filed under texts.
pub struct TextMap<V> {
    pub entries: Vec<(String, V)>,
}

/// The keys of a row of entries.
pub open spec fn keys_of<V>(entries: Seq<(String, V)>) -> Seq<Seq<char>> {
    entries.map_values(|entry: (String, V)| entry.0@)
}

/// The first entry under `key`.
pub open spec fn entry_under<V>(entries: Seq<(String, V)>, key: Seq<char>) -> int {
    choose|i: int| 0 <= i < entries.len() && (#[trigger] entries[i]).0@ == key
}

impl<V> View for TextMap<V> {
    type V = Map<Seq<char>, V>;

    open spec fn view(&self) -> Map<Seq<char>, V> {
        Map::new(
            |key: Seq<char>| keys_of(self.entries@).contains(key),
            |key: Seq<char>| self.entries@[entry_under(self.entries@, key)].1,
        )
    }
}

impl<V> TextMap<V> {
    /// No key stands in the map twice.
    pub open spec fn wf(&self) -> bool {
        keys_of(self.entries@).no_duplicates()
    }

    pub proof fn lemma_entry(&self, index: int)
        requires
            self.wf(),
            0 <= index < self.entries@.len(),
        ensures
            self@.contains_key(self.entries@[index].0@),
            self@[self.entries@[index].0@] == self.entries@[index].1,
    {
        let keys = keys_of(self.entries@);
        let key = self.entries@[index].0@;
        assert(keys[index] == key);
        let found = entry_under(self.entries@, key);
        assert(keys[found] == key);
    }

    proof fn lemma_key(&self, key: Seq<char>) -> (index: int)
        requires
            self.wf(),
            self@.contains_key(key),
        ensures
            0 <= index < self.entries@.len(),
            self.entries@[index].0@ == key,
            self@[key] == self.entries@[index].1,
    {
        let keys = keys_of(self.entries@);
        let index = choose|i: int| 0 <= i < keys.len() && keys[i] == key;
        self.lemma_entry(index);
        index
    }

    pub fn new() -> (map: TextMap<V>)
        ensures
            map@ == Map::<Seq<char>, V>::empty(),
            map.wf(),
    {
        let map: TextMap<V> = TextMap { entries: Vec::new() };
        assert(map@ =~= Map::<Seq<char>, V>::empty());
        map
    }

    pub fn len(&self) -> (len: usize)
        requires
            self.wf(),
        ensures
            len == self@.dom().len(),
            self@.dom().finite(),
    {
        proof {
            keys_of(self.entries@).unique_seq_to_set();
            vstd::seq_lib::seq_to_set_is_finite(keys_of(self.entries@));
            assert(self@.dom() =~= keys_of(self.entries@).to_set());
        }
        self.entries.len()
    }

    fn position(&self, key: &str) -> (found: Option<usize>)
        requires
            self.wf(),
        ensures
            match found {
                Some(index) => index < self.entries@.len() && self.entries@[index as int].0@ == key@
                    && self@.contains_key(key@) && self@[key@] == self.entries@[index as int].1,
                None => !self@.contains_key(key@),
            },
    {
        let mut index: usize = 0;
        while index < self.entries.len()
            invariant
                self.wf(),
                index <= self.entries@.len(),
                forall|i: int| 0 <= i < index ==> (#[trigger] self.entries@[i]).0@ != key@,
            decreases self.entries@.len() - index,
        {
            if same_text(self.entries[index].0.as_str(), key) {
                proof {
                    self.lemma_entry(index as int);
                }
                return Some(index);
            }
            index += 1;
        }
        proof {
            if self@.contains_key(key@) {
                let _ = self.lemma_key(key@);
            }
        }
        None
    }

    /// The value under `key`.
    pub fn get(&self, key: &str) -> (value: Option<&V>)
        requires
            self.wf(),
        ensures
            match value {
                Some(value) => self@.contains_key(key@) && *value == self@[key@],
                None => !self@.contains_key(key@),
            },
    {
        match self.position(key) {
            Some(index) => Some(&self.entries[index].1),
            None => None,
        }
    }

    /// Take the value under `key` out.
    pub fn remove(&mut self, key: &str) -> (value: Option<V>)
        requires
            old(self).wf(),
        ensures
            final(self)@ == old(self)@.remove(key@),
            final(self).wf(),
            value == if old(self)@.contains_key(key@) {
                Some(old(self)@[key@])
            } else {
                None
            },
    {
        match self.position(key) {
            Some(index) => {
                let ghost before = *self;
                let (_, value) = self.entries.remove(index);
                proof {
                    let earlier = keys_of(before.entries@);
                    let later = keys_of(self.entries@);
                    assert(earlier[index as int] == key@);
                    assert(later =~= earlier.remove(index as int));
                    assert(self.wf());
                    assert forall|k: Seq<char>|
                        self@.contains_key(k) <==> before@.remove(key@).contains_key(k) by {
                        if later.contains(k) {
                            let i = choose|i: int| 0 <= i < later.len() && later[i] == k;
                            if i < index {
                                assert(earlier[i] == k);
                            } else {
                                assert(earlier[i + 1] == k);
                            }
                        }
                        if earlier.contains(k) && k != key@ {
                            let i = choose|i: int| 0 <= i < earlier.len() && earlier[i] == k;
                            if i < index {
                                assert(later[i] == k);
                            } else {
                                assert(later[i - 1] == k);
                            }
                        }
                    }
                    assert forall|k: Seq<char>| self@.contains_key(k) implies #[trigger] self@[k]
                        == before@.remove(key@)[k] by {
                        let i = self.lemma_key(k);
                        if i < index {
                            assert(before.entries@[i] == self.entries@[i]);
                            before.lemma_entry(i);
                        } else {
                            assert(before.entries@[i + 1] == self.entries@[i]);
                            before.lemma_entry(i + 1);
                        }
                    }
                    assert(self@ =~= before@.remove(key@));
                }
                Some(value)
            },
            None => {
                assert(self@ =~= self@.remove(key@));
                None
            },
        }
    }

    /// File `value` under `key`, in place of what was there.
    pub fn insert(&mut self, key: String, value: V)
        requires
            old(self).wf(),
        ensures
            final(self)@ == old(self)@.insert(key@, value),
            final(self).wf(),
    {
        let ghost first = *self;
        let _ = self.remove(key.as_str());
        let ghost before = *self;
        self.entries.push((key, value));
        proof {
            let earlier = keys_of(before.entries@);
            let later = keys_of(self.entries@);
            assert(later =~= earlier.push(key@));
            assert(!before@.contains_key(key@));
            assert(!earlier.contains(key@));
            assert forall|i: int, j: int|
                0 <= i < later.len() && 0 <= j < later.len() && i != j implies later[i]
                != later[j] by {
                if i == earlier.len() {
                    assert(earlier[j] == later[j]);
                    assert(earlier.contains(later[j]));
                } else if j == earlier.len() {
                    assert(earlier[i] == later[i]);
                    assert(earlier.contains(later[i]));
                } else {
                    assert(earlier[i] == later[i] && earlier[j] == later[j]);
                }
            }
            assert(self.wf());
            let wanted = first@.insert(key@, value);
            assert forall|k: Seq<char>| self@.contains_key(k) <==> wanted.contains_key(k) by {
                if k == key@ {
                    assert(later[later.len() - 1] == k);
                } else {
                    if later.contains(k) {
                        let i = choose|i: int| 0 <= i < later.len() && later[i] == k;
                        assert(earlier[i] == k);
                    }
                    if earlier.contains(k) {
                        let i = choose|i: int| 0 <= i < earlier.len() && earlier[i] == k;
                        assert(later[i] == k);
                    }
                    assert(before@.contains_key(k) == first@.contains_key(k));
                }
            }
            assert forall|k: Seq<char>| self@.contains_key(k) implies #[trigger] self@[k]
                == wanted[k] by {
                let i = self.lemma_key(k);
                if i < earlier.len() {
                    assert(before.entries@[i] == self.entries@[i]);
                    before.lemma_entry(i);
                    assert(earlier[i] == k);
                    assert(earlier.contains(k));
                }
            }
            assert(self@ =~= wanted);
        }
    }

    /// The key that comes first in order, not counting `kept`.
    pub fn first_key_but(&self, kept: &str) -> (first: Option<String>)
        requires
            self.wf(),
        ensures
            match first {
                Some(key) => is_first_key(self@.dom().remove(kept@), key@),
                None => self@.dom().remove(kept@) =~= Set::<Seq<char>>::empty(),
            },
    {
        let mut best: Option<usize> = None;
        let mut index: usize = 0;
        while index < self.entries.len()
            invariant
                self.wf(),
                index <= self.entries@.len(),
                match best {
                    Some(at) => at < index && self.entries@[at as int].0@ != kept@ && forall|i: int|
                        0 <= i < index && (#[trigger] self.entries@[i]).0@ != kept@ ==> i == at
                            || text_before_in_order(
                            self.entries@[at as int].0@,
                            self.entries@[i].0@,
                        ),
                    None => forall|i: int|
                        0 <= i < index ==> (#[trigger] self.entries@[i]).0@ == kept@,
                },
            decreases self.entries@.len() - index,
        {
            let key: &String = &self.entries[index].0;
            if !same_text(key.as_str(), kept) {
                match best {
                    Some(at) => {
                        let known: &String = &self.entries[at].0;
                        proof {
                            lemma_bytes_order(encode_utf8(key@), encode_utf8(known@));
                            if !text_before_in_order(key@, known@) {
                                assert(keys_of(self.entries@)[at as int] == known@);
                                assert(keys_of(self.entries@)[index as int] == key@);
                                if encode_utf8(key@) == encode_utf8(known@) {
                                    crate::text::lemma_encode_injective(key@, known@);
                                }
                            } else {
                                assert forall|i: int|
                                    0 <= i < index && (#[trigger] self.entries@[i]).0@ != kept@
                                        && i != at implies text_before_in_order(
                                    key@,
                                    self.entries@[i].0@,
                                ) by {
                                    lemma_bytes_order_transitive(
                                        encode_utf8(key@),
                                        encode_utf8(known@),
                                        encode_utf8(self.entries@[i].0@),
                                    );
                                }
                            }
                        }
                        if comes_before(key.as_str(), known.as_str()) {
                            best = Some(index);
                        }
                    },
                    None => {
                        best = Some(index);
                    },
                }
            }
            index += 1;
        }
        match best {
            Some(at) => {
                proof {
                    self.lemma_entry(at as int);
                    let key = self.entries@[at as int].0@;
                    assert forall|other: Seq<char>|
                        self@.dom().remove(kept@).contains(other) && other
                            != key implies #[trigger] text_before_in_order(key, other) by {
                        let i = self.lemma_key(other);
                        assert(self.entries@[i].0@ != kept@);
                    }
                }
                Some(self.entries[at].0.clone())
            },
            None => {
                proof {
                    assert forall|other: Seq<char>|
                        !self@.dom().remove(kept@).contains(other) by {
                        if self@.dom().remove(kept@).contains(other) {
                            let i = self.lemma_key(other);
                            assert(self.entries@[i].0@ == kept@);
                        }
                    }
                }
                None
            },
        }
    }
}

/// Whether `key` is the one of `keys` that comes first in order.
pub open spec fn is_first_key(keys: Set<Seq<char>>, key: Seq<char>) -> bool {
    &&& keys.contains(key)
    &&& forall|other: Seq<char>|
        keys.contains(other) && other != key ==> #[trigger] text_before_in_order(key, other)
}

} // verus!
