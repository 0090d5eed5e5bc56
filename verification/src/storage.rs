//! A contract's keyed storage: plain values in memory, which the chain side reads before a message
//! and writes back after it.
use vstd::prelude::*;
use crate::account::AccountId;

verus! {

/// A key whose equality the storage can test.
pub trait StorageKey: Sized {
    fn same(&self, other: &Self) -> (same: bool)
        ensures
            same == (*self == *other),
    ;
}

impl StorageKey for u16 {
    fn same(&self, other: &Self) -> (same: bool) {
        *self == *other
    }
}

impl StorageKey for u64 {
    fn same(&self, other: &Self) -> (same: bool) {
        *self == *other
    }
}

impl StorageKey for AccountId {
    fn same(&self, other: &Self) -> (same: bool) {
        *self == *other
    }
}

impl StorageKey for (AccountId, u16) {
    fn same(&self, other: &Self) -> (same: bool) {
        self.0 == other.0 && self.1 == other.1
    }
}

impl StorageKey for (AccountId, u32) {
    fn same(&self, other: &Self) -> (same: bool) {
        self.0 == other.0 && self.1 == other.1
    }
}

impl StorageKey for (u64, AccountId, AccountId) {
    fn same(&self, other: &Self) -> (same: bool) {
        self.0 == other.0 && self.1 == other.1 && self.2 == other.2
    }
}

/// Keyed values; every key occurs at most once.
#[verifier::reject_recursive_types(K)]
pub struct Mapping<K: StorageKey, V> {
    entries: Vec<(K, V)>,
}

spec fn has_key<K, V>(entries: Seq<(K, V)>, key: K) -> bool {
    exists|i: int| 0 <= i < entries.len() && (#[trigger] entries[i]).0 == key
}

spec fn index_of<K, V>(entries: Seq<(K, V)>, key: K) -> int {
    choose|i: int| 0 <= i < entries.len() && (#[trigger] entries[i]).0 == key
}

spec fn distinct<K, V>(entries: Seq<(K, V)>) -> bool {
    forall|i: int, j: int|
        0 <= i < j < entries.len() ==> (#[trigger] entries[i]).0 != (#[trigger] entries[j]).0
}

impl<K: StorageKey, V> View for Mapping<K, V> {
    type V = Map<K, V>;

    closed spec fn view(&self) -> Map<K, V> {
        Map::new(
            |key: K| has_key(self.entries@, key),
            |key: K| self.entries@[index_of(self.entries@, key)].1,
        )
    }
}

impl<K: StorageKey, V> Mapping<K, V> {
    #[verifier::type_invariant]
    spec fn keys_are_distinct(self) -> bool {
        distinct(self.entries@)
    }

    /// An empty mapping.
    pub fn new() -> (m: Self)
        ensures
            m@ == Map::<K, V>::empty(),
    {
        let m = Mapping { entries: Vec::new() };
        assert(m@ =~= Map::<K, V>::empty());
        m
    }

    fn find(&self, key: &K) -> (at: Option<usize>)
        ensures
            match at {
                Some(i) => i < self.entries@.len() && self.entries@[i as int].0 == *key
                    && has_key(self.entries@, *key) && index_of(self.entries@, *key) == i,
                None => !has_key(self.entries@, *key),
            },
    {
        proof {
            use_type_invariant(self);
        }
        let mut i: usize = 0;
        while i < self.entries.len()
            invariant
                i <= self.entries@.len(),
                distinct(self.entries@),
                forall|j: int| 0 <= j < i ==> (#[trigger] self.entries@[j]).0 != *key,
            decreases self.entries@.len() - i,
        {
            if self.entries[i].0.same(key) {
                assert(self.entries@[i as int].0 == *key);
                assert(has_key(self.entries@, *key));
                assert(index_of(self.entries@, *key) == i);
                return Some(i);
            }
            i = i + 1;
        }
        None
    }

    /// The value under `key`.
    pub fn get(&self, key: &K) -> (value: Option<&V>)
        ensures
            value == (if self@.contains_key(*key) {
                Some(&self@[*key])
            } else {
                None
            }),
    {
        match self.find(key) {
            Some(i) => Some(&self.entries[i].1),
            None => None,
        }
    }

    /// All keys with their values.
    pub fn entries(&self) -> (entries: &Vec<(K, V)>)
        ensures
            forall|i: int|
                0 <= i < entries@.len() ==> self@.contains_key((#[trigger] entries@[i]).0)
                    && self@[entries@[i].0] == entries@[i].1,
            forall|key: K| #[trigger]
                self@.contains_key(key) ==> exists|i: int|
                    0 <= i < entries@.len() && (#[trigger] entries@[i]).0 == key,
            forall|i: int, j: int|
                0 <= i < j < entries@.len() ==> (#[trigger] entries@[i]).0 != (
                #[trigger] entries@[j]).0,
    {
        proof {
            use_type_invariant(self);
            assert forall|i: int| 0 <= i < self.entries@.len() implies self@.contains_key(
                (#[trigger] self.entries@[i]).0,
            ) && self@[self.entries@[i].0] == self.entries@[i].1 by {
                lemma_index(self.entries@, i);
            }
        }
        &self.entries
    }

    /// Whether `key` has a value.
    pub fn contains(&self, key: &K) -> (present: bool)
        ensures
            present == self@.contains_key(*key),
    {
        self.find(key).is_some()
    }

    /// Puts `value` under `key`, in place of an earlier one.
    pub fn insert(&mut self, key: K, value: V)
        ensures
            final(self)@ == old(self)@.insert(key, value),
    {
        proof {
            use_type_invariant(&*self);
        }
        let at = self.find(&key);
        let ghost before = self.entries@;
        let mut entries: Vec<(K, V)> = Vec::new();
        std::mem::swap(&mut entries, &mut self.entries);
        match at {
            Some(i) => {
                entries[i] = (key, value);
            },
            None => {
                entries.push((key, value));
            },
        }
        proof {
            lemma_inserted(before, entries@, at, key, value);
        }
        self.entries = entries;
        proof {
            assert(self@ =~= old(self)@.insert(key, value));
        }
    }

    /// Takes the value under `key` out.
    pub fn remove(&mut self, key: &K) -> (value: Option<V>)
        ensures
            final(self)@ == old(self)@.remove(*key),
            value == (if old(self)@.contains_key(*key) {
                Some(old(self)@[*key])
            } else {
                None
            }),
    {
        proof {
            use_type_invariant(&*self);
        }
        match self.find(key) {
            Some(i) => {
                let ghost before = self.entries@;
                let mut entries: Vec<(K, V)> = Vec::new();
                std::mem::swap(&mut entries, &mut self.entries);
                let taken = entries.remove(i);
                proof {
                    lemma_removed(before, entries@, i as int, *key);
                }
                self.entries = entries;
                proof {
                    assert(self@ =~= old(self)@.remove(*key));
                }
                Some(taken.1)
            },
            None => {
                assert(self@ =~= old(self)@.remove(*key));
                None
            },
        }
    }
}

proof fn lemma_index<K, V>(entries: Seq<(K, V)>, i: int)
    requires
        distinct(entries),
        0 <= i < entries.len(),
    ensures
        has_key(entries, entries[i].0),
        index_of(entries, entries[i].0) == i,
{
}

proof fn lemma_inserted<K, V>(
    before: Seq<(K, V)>,
    after: Seq<(K, V)>,
    at: Option<usize>,
    key: K,
    value: V,
)
    requires
        distinct(before),
        match at {
            Some(i) => i < before.len() && before[i as int].0 == key && after == before.update(
                i as int,
                (key, value),
            ),
            None => !has_key(before, key) && after == before.push((key, value)),
        },
    ensures
        distinct(after),
        has_key(after, key),
        after[index_of(after, key)].1 == value,
        forall|k: K| k != key ==> has_key(after, k) == has_key(before, k),
        forall|k: K|
            k != key && has_key(before, k) ==> after[index_of(after, k)].1 == before[index_of(
                before,
                k,
            )].1,
{
    let spot: int = match at {
        Some(i) => i as int,
        None => before.len() as int,
    };
    assert(after[spot] == (key, value));
    lemma_index(after, spot);
    assert forall|k: K| k != key implies has_key(after, k) == has_key(before, k) by {
        if has_key(before, k) {
            let i = index_of(before, k);
            assert(after[i] == before[i]);
        }
        if has_key(after, k) {
            let i = index_of(after, k);
            assert(after[i] == before[i]);
        }
    }
    assert forall|k: K| k != key && has_key(before, k) implies after[index_of(after, k)].1
        == before[index_of(before, k)].1 by {
        let i = index_of(before, k);
        assert(after[i] == before[i]);
        lemma_index(after, i);
    }
}

proof fn lemma_removed<K, V>(before: Seq<(K, V)>, after: Seq<(K, V)>, at: int, key: K)
    requires
        distinct(before),
        0 <= at < before.len(),
        before[at].0 == key,
        after == before.remove(at),
    ensures
        distinct(after),
        !has_key(after, key),
        forall|k: K| k != key ==> has_key(after, k) == has_key(before, k),
        forall|k: K|
            k != key && has_key(before, k) ==> after[index_of(after, k)].1 == before[index_of(
                before,
                k,
            )].1,
{
    assert forall|k: K| k != key implies has_key(after, k) == has_key(before, k) by {
        if has_key(before, k) {
            let i = index_of(before, k);
            if i < at {
                assert(after[i] == before[i]);
            } else {
                assert(after[i - 1] == before[i]);
            }
        }
        if has_key(after, k) {
            let i = index_of(after, k);
            if i < at {
                assert(before[i] == after[i]);
            } else {
                assert(before[i + 1] == after[i]);
            }
        }
    }
    assert forall|k: K| k != key && has_key(before, k) implies after[index_of(after, k)].1
        == before[index_of(before, k)].1 by {
        let i = index_of(before, k);
        if i < at {
            assert(after[i] == before[i]);
            lemma_index(after, i);
        } else {
            assert(after[i - 1] == before[i]);
            lemma_index(after, i - 1);
        }
    }
    if has_key(after, key) {
        let i = index_of(after, key);
        if i < at {
            assert(before[i] == after[i]);
        } else {
            assert(before[i + 1] == after[i]);
        }
    }
}

/// A stored list that is indexed by 32-bit numbers.
pub struct StorageVec<T> {
    items: Vec<T>,
}

impl<T> View for StorageVec<T> {
    type V = Seq<T>;

    closed spec fn view(&self) -> Seq<T> {
        self.items@
    }
}

impl<T> StorageVec<T> {
    #[verifier::type_invariant]
    spec fn fits_index(self) -> bool {
        self.items@.len() <= u32::MAX
    }

    /// An empty list.
    pub fn new() -> (v: Self)
        ensures
            v@ == Seq::<T>::empty(),
    {
        StorageVec { items: Vec::new() }
    }

    /// The number of items.
    pub fn len(&self) -> (n: u32)
        ensures
            n == self@.len(),
    {
        proof {
            use_type_invariant(self);
        }
        self.items.len() as u32
    }

    /// The item at an index.
    pub fn get(&self, index: u32) -> (item: Option<&T>)
        ensures
            item == (if index < self@.len() {
                Some(&self@[index as int])
            } else {
                None
            }),
    {
        if (index as usize) < self.items.len() {
            Some(&self.items[index as usize])
        } else {
            None
        }
    }

    /// Appends an item. A full list takes none.
    pub fn push(&mut self, item: T)
        requires
            old(self)@.len() < u32::MAX,
        ensures
            final(self)@ == old(self)@.push(item),
    {
        let mut items: Vec<T> = Vec::new();
        std::mem::swap(&mut items, &mut self.items);
        items.push(item);
        self.items = items;
    }
}

} // verus!
