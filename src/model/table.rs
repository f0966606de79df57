//! An insertion-ordered map from strings to values, with unique keys.
use super::keyset::{add_key, copy_keys, empty_keys, index_set_keys, key_at, key_position};
use indexmap::IndexSet;
use vstd::prelude::*;

verus! {

/// A value that can be copied so that the copy has the same view.
pub trait DeepCopy: View + Sized {
    fn deep_copy(&self) -> (r: Self)
        ensures
            r@ == self@,
    ;
}

/// Whether no key occurs twice among the entries.
pub open spec fn keys_unique<V>(entries: Seq<(Seq<char>, V)>) -> bool {
    forall|i: int, j: int|
        0 <= i < entries.len() && 0 <= j < entries.len() && i != j ==> entries[i].0 != entries[j].0
}

/// Whether some entry has the key.
pub open spec fn has_key<V>(entries: Seq<(Seq<char>, V)>, key: Seq<char>) -> bool {
    exists|i: int| 0 <= i < entries.len() && entries[i].0 == key
}

/// The position of the entry with the key (meaningful when `has_key`).
pub open spec fn key_index<V>(entries: Seq<(Seq<char>, V)>, key: Seq<char>) -> int {
    choose|i: int| 0 <= i < entries.len() && entries[i].0 == key
}

/// The value stored under the key, if any.
pub open spec fn lookup<V>(entries: Seq<(Seq<char>, V)>, key: Seq<char>) -> Option<V> {
    if has_key(entries, key) {
        Some(entries[key_index(entries, key)].1)
    } else {
        None
    }
}

/// The entries after storing `val` under `key`: an existing key keeps its
/// position and gets the new value; a new key goes last.
pub open spec fn insert_entry<V>(entries: Seq<(Seq<char>, V)>, key: Seq<char>, val: V) -> Seq<
    (Seq<char>, V),
> {
    if has_key(entries, key) {
        entries.update(key_index(entries, key), (key, val))
    } else {
        entries.push((key, val))
    }
}

/// The keys of the entries, in order.
pub open spec fn keys_of<V>(entries: Seq<(Seq<char>, V)>) -> Seq<Seq<char>> {
    Seq::new(entries.len(), |i: int| entries[i].0)
}

/// With unique keys, the entry found for a key is the one at its position.
pub proof fn lemma_lookup_at<V>(entries: Seq<(Seq<char>, V)>, i: int)
    requires
        keys_unique(entries),
        0 <= i < entries.len(),
    ensures
        has_key(entries, entries[i].0),
        key_index(entries, entries[i].0) == i,
        lookup(entries, entries[i].0) == Some(entries[i].1),
{
    let k = entries[i].0;
    assert(has_key(entries, k));
    let j = key_index(entries, k);
    assert(entries[j].0 == k);
}

/// Inserting keeps the keys unique and makes the key hold the value.
pub proof fn lemma_insert_entry<V>(entries: Seq<(Seq<char>, V)>, key: Seq<char>, val: V)
    requires
        keys_unique(entries),
    ensures
        keys_unique(insert_entry(entries, key, val)),
        lookup(insert_entry(entries, key, val), key) == Some(val),
        forall|k: Seq<char>| k != key ==> lookup(insert_entry(entries, key, val), k) == lookup(entries, k),
{
    let r = insert_entry(entries, key, val);
    if has_key(entries, key) {
        let p = key_index(entries, key);
        assert(entries[p].0 == key);
        assert(keys_unique(r));
        lemma_lookup_at(r, p);
    } else {
        assert(keys_unique(r));
        lemma_lookup_at(r, entries.len() as int);
    }
    assert forall|k: Seq<char>| k != key implies lookup(r, k) == lookup(entries, k) by {
        if has_key(entries, k) {
            let q = key_index(entries, k);
            lemma_lookup_at(entries, q);
            assert(r[q] == entries[q]);
            lemma_lookup_at(r, q);
        } else {
            if has_key(r, k) {
                let q = key_index(r, k);
                assert(0 <= q < entries.len() && entries[q].0 == k);
            }
        }
    }
}

/// A map from string keys to values that remembers the order in which keys
/// were first inserted. Keys are unique.
#[derive(Debug)]
pub struct OrderedMap<V> {
    keys: IndexSet<String>,
    values: Vec<V>,
}

impl<V> OrderedMap<V> {
    #[verifier::type_invariant]
    spec fn well_formed(self) -> bool {
        &&& index_set_keys(self.keys).len() == self.values@.len()
        &&& index_set_keys(self.keys).no_duplicates()
    }
}

impl<V: View> View for OrderedMap<V> {
    type V = Seq<(Seq<char>, V::V)>;

    closed spec fn view(&self) -> Seq<(Seq<char>, V::V)> {
        Seq::new(self.values@.len(), |i: int| (index_set_keys(self.keys)[i], self.values@[i]@))
    }
}

impl<V: View> OrderedMap<V> {
    proof fn lemma_unique(&self)
        requires
            index_set_keys(self.keys).len() == self.values@.len(),
            index_set_keys(self.keys).no_duplicates(),
        ensures
            keys_unique(self@),
    {
        assert forall|i: int, j: int|
            0 <= i < self@.len() && 0 <= j < self@.len() && i != j implies self@[i].0 != self@[j].0 by {
            assert(index_set_keys(self.keys)[i] != index_set_keys(self.keys)[j]);
        }
    }

    /// An empty map.
    pub fn new() -> (r: Self)
        ensures
            r@ == Seq::<(Seq<char>, V::V)>::empty(),
    {
        let r = OrderedMap { keys: empty_keys(), values: Vec::new() };
        assert(r@ =~= Seq::<(Seq<char>, V::V)>::empty());
        r
    }

    /// The keys of a map are unique.
    pub fn assert_unique(&self)
        ensures
            keys_unique(self@),
    {
        proof {
            use_type_invariant(self);
            self.lemma_unique();
        }
    }

    /// The number of entries.
    pub fn len(&self) -> (r: usize)
        ensures
            r == self@.len(),
    {
        self.values.len()
    }

    /// Whether the map has no entry.
    pub fn is_empty(&self) -> (r: bool)
        ensures
            r == (self@.len() == 0),
    {
        self.values.len() == 0
    }

    /// The position of the key, if it is present.
    pub fn position(&self, key: &str) -> (r: Option<usize>)
        ensures
            match r {
                Some(i) => i < self@.len() && self@[i as int].0 == key@,
                None => !has_key(self@, key@),
            },
    {
        proof {
            use_type_invariant(self);
        }
        let r = key_position(&self.keys, key);
        proof {
            if r is None {
                if has_key(self@, key@) {
                    let i = key_index(self@, key@);
                    assert(index_set_keys(self.keys)[i] == key@);
                }
            }
        }
        r
    }

    /// The value stored under the key.
    pub fn get(&self, key: &str) -> (r: Option<&V>)
        ensures
            match r {
                Some(v) => lookup(self@, key@) == Some(v@),
                None => lookup(self@, key@) is None,
            },
    {
        proof {
            use_type_invariant(self);
            self.lemma_unique();
        }
        match self.position(key) {
            Some(i) => {
                proof {
                    lemma_lookup_at(self@, i as int);
                }
                Some(&self.values[i])
            },
            None => None,
        }
    }

    /// Whether the key is present.
    pub fn contains_key(&self, key: &str) -> (r: bool)
        ensures
            r == has_key(self@, key@),
    {
        self.position(key).is_some()
    }

    /// The key of the entry at a position.
    pub fn key_at(&self, i: usize) -> (r: &String)
        requires
            i < self@.len(),
        ensures
            r@ == self@[i as int].0,
    {
        proof {
            use_type_invariant(self);
        }
        match key_at(&self.keys, i) {
            Some(k) => k,
            None => {
                assert(false);
                key_at(&self.keys, i).unwrap()
            },
        }
    }

    /// The value of the entry at a position.
    pub fn value_at(&self, i: usize) -> (r: &V)
        requires
            i < self@.len(),
        ensures
            r@ == self@[i as int].1,
    {
        &self.values[i]
    }

    /// Stores `value` under `key`. An existing key keeps its position.
    pub fn insert(&mut self, key: String, value: V)
        ensures
            final(self)@ == insert_entry(old(self)@, key@, value@),
    {
        proof {
            use_type_invariant(&*self);
            self.lemma_unique();
        }
        let ghost old_view = self@;
        let ghost k = key@;
        let ghost vv = value@;
        let mut taken = OrderedMap::new();
        std::mem::swap(self, &mut taken);
        proof {
            use_type_invariant(&taken);
        }
        let OrderedMap { mut keys, mut values } = taken;
        let ghost old_keys = index_set_keys(keys);
        assert(old_view == taken@);
        let (i, added) = add_key(&mut keys, key);
        if added {
            values.push(value);
            proof {
                if has_key(old_view, k) {
                    let j = key_index(old_view, k);
                    assert(old_keys[j] == k);
                }
                assert(index_set_keys(keys).no_duplicates());
            }
        } else {
            values.set(i, value);
        }
        *self = OrderedMap { keys, values };
        proof {
            if added {
                assert(self@ =~= old_view.push((k, vv)));
            } else {
                assert(old_view[i as int].0 == old_keys[i as int]);
                assert(has_key(old_view, k));
                lemma_lookup_at(old_view, i as int);
                assert(self@ =~= old_view.update(i as int, (k, vv)));
            }
        }
    }

    /// Puts `value` in place of the value at a position and returns the old one.
    pub fn replace_at(&mut self, i: usize, value: V) -> (r: V)
        requires
            i < old(self)@.len(),
        ensures
            r@ == old(self)@[i as int].1,
            final(self)@ == old(self)@.update(i as int, (old(self)@[i as int].0, value@)),
    {
        let ghost old_view = self@;
        let mut taken = OrderedMap::new();
        std::mem::swap(self, &mut taken);
        proof {
            use_type_invariant(&taken);
        }
        let OrderedMap { keys, mut values } = taken;
        let mut v = value;
        std::mem::swap(&mut v, &mut values[i]);
        *self = OrderedMap { keys, values };
        proof {
            assert(self@ =~= old_view.update(i as int, (old_view[i as int].0, value@)));
        }
        v
    }

    /// The keys, in order.
    pub fn keys(&self) -> (r: Vec<String>)
        ensures
            r@.len() == self@.len(),
            forall|i: int| 0 <= i < r@.len() ==> r@[i]@ == self@[i].0,
    {
        let mut out: Vec<String> = Vec::new();
        let mut i: usize = 0;
        while i < self.len()
            invariant
                0 <= i <= self@.len(),
                out@.len() == i,
                forall|j: int| 0 <= j < i ==> out@[j]@ == self@[j].0,
            decreases self@.len() - i,
        {
            out.push(self.key_at(i).clone());
            i = i + 1;
        }
        out
    }
}

impl<V: DeepCopy> DeepCopy for OrderedMap<V> {
    fn deep_copy(&self) -> (r: Self) {
        proof {
            use_type_invariant(self);
        }
        let keys = copy_keys(&self.keys);
        let mut values: Vec<V> = Vec::new();
        let mut i: usize = 0;
        while i < self.values.len()
            invariant
                0 <= i <= self.values@.len(),
                values@.len() == i,
                forall|j: int| 0 <= j < i ==> values@[j]@ == self.values@[j]@,
            decreases self.values@.len() - i,
        {
            values.push(self.values[i].deep_copy());
            i = i + 1;
        }
        let r = OrderedMap { keys, values };
        assert(r@ =~= self@);
        r
    }
}

impl<V: DeepCopy> Clone for OrderedMap<V> {
    fn clone(&self) -> (r: Self)
        ensures
            r@ == self@,
    {
        self.deep_copy()
    }
}

} // verus!
