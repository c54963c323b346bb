//! The store: a finite mapping from string keys to string values.
//!
//! A [`KvStore`] is modelled by its view, a `Map<Seq<char>, Seq<char>>`.
//! Entries are kept in a vector in which no key occurs twice; the order of
//! that vector is what [`KvStore::iter`] walks, and callers are promised
//! nothing about it beyond [`is_listing_of`].

use crate::text::{same_text, Text};
use vstd::prelude::*;
use vstd::std_specs::cmp::PartialEqSpecImpl;

verus! {

/// The model of a store.
pub type Model = Map<Seq<char>, Seq<char>>;

/// `l` lists the entries of `m`: every entry once, and nothing else.
pub open spec fn is_listing_of(l: Seq<(Text, Text)>, m: Model) -> bool {
    &&& forall|i: int, j: int| 0 <= i < j < l.len() ==> (#[trigger] l[i]).0 != (#[trigger] l[j]).0
    &&& forall|i: int| 0 <= i < l.len() ==> m.contains_pair((#[trigger] l[i]).0, l[i].1)
    &&& forall|k: Text| #[trigger]
        m.contains_key(k) ==> exists|i: int| 0 <= i < l.len() && (#[trigger] l[i]).0 == k
}

/// The keys of a listing, in its order.
spec fn keys_of(l: Seq<(Text, Text)>) -> Seq<Text> {
    Seq::new(l.len(), |i: int| l[i].0)
}

/// The mapping that a listing stands for. Where a key occurs once, it is
/// mapped to the value beside it.
spec fn map_of(l: Seq<(Text, Text)>) -> Model {
    Map::new(|k: Text| keys_of(l).contains(k), |k: Text| l[keys_of(l).index_of(k)].1)
}

/// What a lookup of `key` in `m` finds.
pub open spec fn lookup(m: Model, key: Text) -> Option<Text> {
    if m.contains_key(key) {
        Some(m[key])
    } else {
        None
    }
}

/// What a deletion of `key` from `m` comes to: the mapping without the key,
/// or the key itself where `m` has no entry under it.
pub open spec fn deletion(m: Model, key: Text) -> Result<Model, Text> {
    if m.contains_key(key) {
        Ok(m.remove(key))
    } else {
        Err(key)
    }
}

/// What an optional borrowed string holds.
pub open spec fn text_of(value: Option<&str>) -> Option<Text> {
    match value {
        Some(v) => Some(v@),
        None => None,
    }
}

/// What an executable list of borrowed pairs holds.
pub open spec fn pairs_view(v: Seq<(&str, &str)>) -> Seq<(Text, Text)> {
    Seq::new(v.len(), |i: int| (v[i].0@, v[i].1@))
}

/// A listing without a repeated key lists the mapping it stands for, and
/// that mapping has as many entries as the listing.
proof fn lemma_map_of_listing(l: Seq<(Text, Text)>)
    requires
        keys_of(l).no_duplicates(),
    ensures
        is_listing_of(l, map_of(l)),
        map_of(l).dom().finite(),
        map_of(l).len() == l.len(),
{
    let keys = keys_of(l);
    let m = map_of(l);
    assert forall|i: int| 0 <= i < l.len() implies m.contains_pair((#[trigger] l[i]).0, l[i].1) by {
        assert(keys[i] == l[i].0);
        assert(keys.contains(l[i].0));
        let j = keys.index_of(l[i].0);
        assert(0 <= j < keys.len() && keys[j] == l[i].0);
        assert(j == i);
    }
    assert forall|i: int, j: int| 0 <= i < j < l.len() implies (#[trigger] l[i]).0 != (
    #[trigger] l[j]).0 by {
        assert(keys[i] == l[i].0 && keys[j] == l[j].0);
    }
    assert forall|k: Text| #[trigger] m.contains_key(k) implies exists|i: int|
        0 <= i < l.len() && (#[trigger] l[i]).0 == k by {
        let i = keys.index_of(k);
        assert(0 <= i < keys.len() && keys[i] == k);
        assert(l[i].0 == k);
    }
    assert(m.dom() =~= keys.to_set());
    keys.unique_seq_to_set();
    vstd::seq_lib::seq_to_set_is_finite(keys);
}

/// The one way an operation on the store can fail.
#[derive(Debug, PartialEq, Eq)]
pub enum KvError {
    /// A deletion named a key that the store does not hold.
    KeyNotFound(String),
}

impl KvError {
    /// The key that the failed operation named.
    pub open spec fn key(&self) -> Text {
        match self {
            KvError::KeyNotFound(k) => k@,
        }
    }
}

impl Clone for KvError {
    fn clone(&self) -> (copy: Self)
        ensures
            copy == *self,
    {
        match self {
            KvError::KeyNotFound(key) => KvError::KeyNotFound(key.clone()),
        }
    }
}

/// The result of a store operation that can fail.
pub type KvResult<T> = Result<T, KvError>;

/// An in-memory store of string values under string keys.
#[derive(Debug)]
pub struct KvStore {
    entries: Vec<(String, String)>,
}

impl View for KvStore {
    type V = Map<Seq<char>, Seq<char>>;

    closed spec fn view(&self) -> Map<Seq<char>, Seq<char>> {
        map_of(self.listing())
    }
}

/// What a vector of owned pairs holds.
spec fn held(entries: Seq<(String, String)>) -> Seq<(Text, Text)> {
    Seq::new(entries.len(), |i: int| (entries[i].0@, entries[i].1@))
}

impl KvStore {
    /// The entries in the order in which [`KvStore::iter`] hands them out.
    pub closed spec fn listing(&self) -> Seq<(Text, Text)> {
        if keys_of(held(self.entries@)).no_duplicates() {
            held(self.entries@)
        } else {
            Seq::empty()
        }
    }

    #[verifier::type_invariant]
    spec fn keys_are_distinct(&self) -> bool {
        keys_of(held(self.entries@)).no_duplicates()
    }

    /// The listing of a store lists what the store holds, entry by entry.
    pub proof fn lemma_listing(&self)
        ensures
            is_listing_of(self.listing(), self@),
            self@.dom().finite(),
            self@.len() == self.listing().len(),
    {
        if !keys_of(held(self.entries@)).no_duplicates() {
            assert(keys_of(Seq::<(Text, Text)>::empty()).no_duplicates());
        }
        lemma_map_of_listing(self.listing());
    }

    /// An empty store.
    pub fn new() -> (store: Self)
        ensures
            store@ == Model::empty(),
            store.listing() == Seq::<(Text, Text)>::empty(),
    {
        let store = KvStore { entries: Vec::new() };
        assert(store.listing() =~= Seq::<(Text, Text)>::empty());
        assert(store@ =~= Model::empty());
        store
    }

    /// Where `key` stands among the entries, if it does.
    fn position(&self, key: &str) -> (found: Option<usize>)
        ensures
            match found {
                Some(i) => i < self.entries@.len() && held(self.entries@)[i as int].0 == key@,
                None => !keys_of(held(self.entries@)).contains(key@),
            },
    {
        let mut i: usize = 0;
        while i < self.entries.len()
            invariant
                i <= self.entries@.len(),
                forall|j: int| 0 <= j < i ==> held(self.entries@)[j].0 != key@,
            decreases self.entries@.len() - i,
        {
            if same_text(self.entries[i].0.as_str(), key) {
                return Some(i);
            }
            i += 1;
        }
        None
    }

    /// The number of entries.
    pub fn len(&self) -> (n: usize)
        ensures
            n == self@.len(),
            n == self.listing().len(),
    {
        proof {
            use_type_invariant(self);
            lemma_map_of_listing(self.listing());
        }
        self.entries.len()
    }

    /// Whether the store holds no entry at all.
    pub fn is_empty(&self) -> (empty: bool)
        ensures
            empty == (self@.len() == 0),
            empty == (self@ == Model::empty()),
            empty == (self.listing().len() == 0),
    {
        proof {
            use_type_invariant(self);
            lemma_map_of_listing(self.listing());
            if self.listing().len() == 0 {
                assert(self@ =~= Model::empty());
            }
        }
        self.entries.is_empty()
    }

    /// The value stored under `key`, or `None` where the store has no such key.
    pub fn get(&self, key: &str) -> (value: Option<&str>)
        ensures
            text_of(value) == lookup(self@, key@),
    {
        proof {
            use_type_invariant(self);
            lemma_map_of_listing(self.listing());
        }
        match self.position(key) {
            Some(i) => {
                assert(self@.contains_pair(self.listing()[i as int].0, self.listing()[i as int].1));
                Some(self.entries[i].1.as_str())
            },
            None => None,
        }
    }

    /// Stores `value` under `key`, replacing what was stored there before.
    pub fn set(&mut self, key: &str, value: &str)
        ensures
            final(self)@ == old(self)@.insert(key@, value@),
    {
        proof {
            use_type_invariant(&*self);
            lemma_map_of_listing(self.listing());
        }
        let found = self.position(key);
        let ghost before = self.listing();
        let mut entries: Vec<(String, String)> = Vec::new();
        std::mem::swap(&mut entries, &mut self.entries);
        match found {
            Some(i) => {
                entries.set(i, (key.to_owned(), value.to_owned()));
            },
            None => {
                entries.push((key.to_owned(), value.to_owned()));
            },
        }
        let ghost after = held(entries@);
        proof {
            match found {
                Some(i) => {
                    assert(after =~= before.update(i as int, (key@, value@)));
                    assert(keys_of(after) =~= keys_of(before));
                },
                None => {
                    assert(after =~= before.push((key@, value@)));
                    assert(keys_of(after) =~= keys_of(before).push(key@));
                },
            }
            lemma_map_of_listing(after);
            assert forall|k: Text| #[trigger]
                map_of(before).insert(key@, value@).contains_key(k) implies map_of(
                after,
            ).contains_key(k) by {
                let j = if k == key@ {
                    match found {
                        Some(i) => i as int,
                        None => before.len() as int,
                    }
                } else {
                    keys_of(before).index_of(k)
                };
                assert(keys_of(after)[j] == k);
            }
            lemma_same_entries(map_of(after), map_of(before).insert(key@, value@), after);
        }
        self.entries = entries;
    }

    /// Removes the entry under `key`. Where the store has no such key it is
    /// left as it was, and the error names the key.
    pub fn delete(&mut self, key: &str) -> (outcome: KvResult<()>)
        ensures
            match deletion(old(self)@, key@) {
                Ok(after) => outcome.is_ok() && final(self)@ == after,
                Err(missing) => outcome.is_err() && outcome.unwrap_err().key() == missing
                    && *final(self) == *old(self),
            },
    {
        proof {
            use_type_invariant(&*self);
            lemma_map_of_listing(self.listing());
        }
        match self.position(key) {
            Some(i) => {
                let ghost before = self.listing();
                assert(self@.contains_pair(before[i as int].0, before[i as int].1));
                let mut entries: Vec<(String, String)> = Vec::new();
                std::mem::swap(&mut entries, &mut self.entries);
                entries.remove(i);
                let ghost after = held(entries@);
                proof {
                    assert(after =~= before.remove(i as int));
                    assert(keys_of(after) =~= keys_of(before).remove(i as int));
                    lemma_map_of_listing(after);
                    assert forall|k: Text| #[trigger]
                        map_of(before).remove(key@).contains_key(k) implies map_of(
                        after,
                    ).contains_key(k) by {
                        let j = keys_of(before).index_of(k);
                        let shifted = if j < i { j } else { j - 1 };
                        assert(keys_of(after)[shifted] == k);
                    }
                    assert forall|j: int| 0 <= j < after.len() implies map_of(before).remove(
                        key@,
                    ).contains_pair((#[trigger] after[j]).0, after[j].1) by {
                        let source = if j < i { j } else { j + 1 };
                        assert(after[j] == before[source]);
                        assert(map_of(before).contains_pair(before[source].0, before[source].1));
                    }
                    lemma_same_entries(map_of(after), map_of(before).remove(key@), after);
                }
                self.entries = entries;
                Ok(())
            },
            None => Err(KvError::KeyNotFound(key.to_owned())),
        }
    }

    /// Every entry once, as borrowed pairs of key and value. The order is
    /// that of [`KvStore::listing`]: it stays the same as long as the store
    /// is not changed, and nothing more is promised of it.
    pub fn iter(&self) -> (pairs: Vec<(&str, &str)>)
        ensures
            pairs_view(pairs@) == self.listing(),
            is_listing_of(self.listing(), self@),
            pairs@.len() == self@.len(),
    {
        proof {
            use_type_invariant(self);
            lemma_map_of_listing(self.listing());
        }
        let mut pairs: Vec<(&str, &str)> = Vec::new();
        let mut i: usize = 0;
        while i < self.entries.len()
            invariant
                i <= self.entries@.len(),
                pairs@.len() == i,
                forall|j: int|
                    0 <= j < i ==> (#[trigger] pairs@[j]).0@ == held(self.entries@)[j].0
                        && pairs@[j].1@ == held(self.entries@)[j].1,
            decreases self.entries@.len() - i,
        {
            pairs.push((self.entries[i].0.as_str(), self.entries[i].1.as_str()));
            i += 1;
        }
        assert(pairs_view(pairs@) =~= self.listing());
        pairs
    }
}

impl Default for KvStore {
    /// An empty store.
    fn default() -> (store: Self)
        ensures
            store@ == Model::empty(),
            store.listing() == Seq::<(Text, Text)>::empty(),
    {
        KvStore::new()
    }
}

impl PartialEq for KvStore {
    /// Two stores are equal where they hold the same entries, in whatever
    /// order each lists them.
    fn eq(&self, other: &Self) -> (same: bool) {
        proof {
            use_type_invariant(self);
            use_type_invariant(other);
            lemma_map_of_listing(self.listing());
            lemma_map_of_listing(other.listing());
        }
        if self.entries.len() != other.entries.len() {
            return false;
        }
        let mut i: usize = 0;
        while i < self.entries.len()
            invariant
                i <= self.entries@.len(),
                self.listing() == held(self.entries@),
                other.listing() == held(other.entries@),
                is_listing_of(self.listing(), self@),
                is_listing_of(other.listing(), other@),
                forall|j: int|
                    0 <= j < i ==> other@.contains_pair(
                        (#[trigger] self.listing()[j]).0,
                        self.listing()[j].1,
                    ),
            decreases self.entries@.len() - i,
        {
            assert(self@.contains_pair(self.listing()[i as int].0, self.listing()[i as int].1));
            match other.position(self.entries[i].0.as_str()) {
                Some(j) => {
                    assert(other@.contains_pair(
                        other.listing()[j as int].0,
                        other.listing()[j as int].1,
                    ));
                    if !same_text(other.entries[j].1.as_str(), self.entries[i].1.as_str()) {
                        return false;
                    }
                },
                None => {
                    return false;
                },
            }
            i += 1;
        }
        proof {
            assert(self@.dom().subset_of(other@.dom())) by {
                assert forall|k: Text| self@.dom().contains(k) implies other@.dom().contains(k) by {
                    let j = choose|j: int|
                        0 <= j < self.listing().len() && (#[trigger] self.listing()[j]).0 == k;
                    assert(other@.contains_pair(self.listing()[j].0, self.listing()[j].1));
                }
            }
            vstd::set_lib::lemma_subset_equality(self@.dom(), other@.dom());
            lemma_same_entries(self@, other@, self.listing());
        }
        true
    }
}

impl PartialEqSpecImpl for KvStore {
    open spec fn obeys_eq_spec() -> bool {
        true
    }

    open spec fn eq_spec(&self, other: &Self) -> bool {
        self@ == other@
    }
}

/// Two mappings of which `l` lists one, while each of its pairs is in the
/// other and each key of the other is in it, are the same mapping.
proof fn lemma_same_entries(a: Model, b: Model, l: Seq<(Text, Text)>)
    requires
        is_listing_of(l, a),
        forall|i: int| 0 <= i < l.len() ==> b.contains_pair((#[trigger] l[i]).0, l[i].1),
        forall|k: Text| #[trigger] b.contains_key(k) ==> a.contains_key(k),
    ensures
        a == b,
{
    assert forall|k: Text| a.contains_key(k) implies b.contains_key(k) && a[k] == b[k] by {
        let i = choose|i: int| 0 <= i < l.len() && (#[trigger] l[i]).0 == k;
        assert(a.contains_pair(l[i].0, l[i].1));
        assert(b.contains_pair(l[i].0, l[i].1));
    }
    assert(a =~= b);
}

} // verus!
