//! A small keyed table: entries in insertion order, at most one per key.
//!
//! Keys are compared by what they denote (their view), so a table keyed by
//! text or by request ids behaves as a map whose order of iteration is the
//! order of insertion.

use crate::message::RpcId;
use vstd::prelude::*;

verus! {

/// A key that can be compared and copied by what it denotes.
pub trait Key: View + Sized {
    /// Whether the two keys denote the same thing.
    fn same(&self, other: &Self) -> (equal: bool)
        ensures
            equal == (self@ == other@),
    ;

    /// A second key that denotes the same thing.
    fn duplicate(&self) -> (copy: Self)
        ensures
            copy@ == self@,
    ;
}

impl Key for String {
    fn same(&self, other: &String) -> (equal: bool) {
        *self == *other
    }

    fn duplicate(&self) -> (copy: String) {
        self.clone()
    }
}

impl Key for RpcId {
    fn same(&self, other: &RpcId) -> (equal: bool) {
        self.same_id(other)
    }

    fn duplicate(&self) -> (copy: RpcId) {
        self.clone()
    }
}

/// One entry of a table.
pub struct Entry<K, V> {
    pub key: K,
    pub value: V,
}

/// Entries in insertion order. Well-formed when no two entries share a key.
pub struct Table<K, V> {
    pub entries: Vec<Entry<K, V>>,
}

/// Index of the first of `keys[from..]` that equals `key`.
pub open spec fn find_from<T>(keys: Seq<T>, key: T, from: int) -> Option<int>
    decreases keys.len() - from,
{
    if from < 0 || from >= keys.len() {
        None
    } else if keys[from] == key {
        Some(from)
    } else {
        find_from(keys, key, from + 1)
    }
}

/// What `find_from` finds is the first match at or after `from`.
pub proof fn lemma_find_from<T>(keys: Seq<T>, key: T, from: int)
    requires
        0 <= from,
    ensures
        match find_from(keys, key, from) {
            Some(i) => from <= i < keys.len() && keys[i] == key && forall|j: int|
                from <= j < i ==> keys[j] != key,
            None => forall|j: int| from <= j < keys.len() ==> keys[j] != key,
        },
    decreases keys.len() - from,
{
    if from < keys.len() && keys[from] != key {
        lemma_find_from(keys, key, from + 1);
    }
}

/// Where every key is different, a match is the one `find_from` finds.
pub proof fn lemma_find_unique<T>(keys: Seq<T>, key: T, at: int)
    requires
        0 <= at < keys.len(),
        keys[at] == key,
        forall|i: int, j: int| 0 <= i < j < keys.len() ==> keys[i] != keys[j],
    ensures
        find_from(keys, key, 0) == Some(at),
{
    lemma_find_from(keys, key, 0);
}

/// The entries among `entries[..n]` for which `drop` does not hold, in order.
pub open spec fn kept<E>(entries: Seq<E>, drop: spec_fn(E) -> bool, n: int) -> Seq<E>
    decreases n,
{
    if n <= 0 {
        Seq::empty()
    } else {
        let before = kept(entries, drop, n - 1);
        if drop(entries[n - 1]) {
            before
        } else {
            before.push(entries[n - 1])
        }
    }
}

/// The entries among `entries[..n]` for which `drop` holds, in order.
pub open spec fn dropped<E>(entries: Seq<E>, drop: spec_fn(E) -> bool, n: int) -> Seq<E>
    decreases n,
{
    if n <= 0 {
        Seq::empty()
    } else {
        let before = dropped(entries, drop, n - 1);
        if drop(entries[n - 1]) {
            before.push(entries[n - 1])
        } else {
            before
        }
    }
}

/// What is kept and what is dropped are both no longer than the whole, and
/// nothing that is kept satisfies `drop`.
pub proof fn lemma_kept<E>(entries: Seq<E>, drop: spec_fn(E) -> bool, n: int)
    requires
        0 <= n <= entries.len(),
    ensures
        kept(entries, drop, n).len() + dropped(entries, drop, n).len() == n,
        forall|i: int| 0 <= i < kept(entries, drop, n).len() ==> !drop(
            #[trigger] kept(entries, drop, n)[i],
        ),
        forall|i: int| 0 <= i < dropped(entries, drop, n).len() ==> drop(
            #[trigger] dropped(entries, drop, n)[i],
        ),
    decreases n,
{
    if n > 0 {
        lemma_kept(entries, drop, n - 1);
    }
}

/// What holds of every entry holds of every entry that is kept.
pub proof fn lemma_kept_all<E>(
    entries: Seq<E>,
    drop: spec_fn(E) -> bool,
    n: int,
    holds: spec_fn(E) -> bool,
)
    requires
        0 <= n <= entries.len(),
        forall|j: int| 0 <= j < n ==> holds(#[trigger] entries[j]),
    ensures
        forall|i: int| 0 <= i < kept(entries, drop, n).len() ==> holds(
            #[trigger] kept(entries, drop, n)[i],
        ),
    decreases n,
{
    if n > 0 {
        lemma_kept_all(entries, drop, n - 1, holds);
        let before = kept(entries, drop, n - 1);
        assert forall|i: int| 0 <= i < kept(entries, drop, n).len() implies holds(
            #[trigger] kept(entries, drop, n)[i],
        ) by {
            if i < before.len() {
                assert(kept(entries, drop, n)[i] == before[i]);
            } else {
                assert(kept(entries, drop, n)[i] == entries[n - 1]);
            }
        }
    }
}

/// Where `drop` holds of no entry, every entry is kept and none is dropped.
pub proof fn lemma_kept_everything<E>(entries: Seq<E>, drop: spec_fn(E) -> bool, n: int)
    requires
        0 <= n <= entries.len(),
        forall|j: int| 0 <= j < n ==> !drop(#[trigger] entries[j]),
    ensures
        kept(entries, drop, n) == entries.take(n),
        dropped(entries, drop, n).len() == 0,
    decreases n,
{
    if n > 0 {
        lemma_kept_everything(entries, drop, n - 1);
        assert(entries.take(n) =~= entries.take(n - 1).push(entries[n - 1]));
    } else {
        assert(entries.take(n) =~= Seq::<E>::empty());
    }
}

/// Every entry for which `drop` holds is among the dropped ones, and no entry
/// for which it holds is among the kept ones.
pub proof fn lemma_dropped_has<E>(entries: Seq<E>, drop: spec_fn(E) -> bool, n: int, j: int)
    requires
        0 <= j < n <= entries.len(),
        drop(entries[j]),
    ensures
        exists|i: int|
            0 <= i < dropped(entries, drop, n).len() && #[trigger] dropped(entries, drop, n)[i]
                == entries[j],
    decreases n,
{
    if j == n - 1 {
        let last = dropped(entries, drop, n).len() - 1;
        assert(dropped(entries, drop, n)[last] == entries[j]);
    } else {
        lemma_dropped_has(entries, drop, n - 1, j);
        let i = choose|i: int|
            0 <= i < dropped(entries, drop, n - 1).len() && #[trigger] dropped(
                entries,
                drop,
                n - 1,
            )[i] == entries[j];
        assert(dropped(entries, drop, n)[i] == entries[j]);
    }
}

/// Every entry for which `drop` does not hold is among the kept ones.
pub proof fn lemma_kept_has<E>(entries: Seq<E>, drop: spec_fn(E) -> bool, n: int, j: int)
    requires
        0 <= j < n <= entries.len(),
        !drop(entries[j]),
    ensures
        exists|i: int|
            0 <= i < kept(entries, drop, n).len() && #[trigger] kept(entries, drop, n)[i]
                == entries[j],
    decreases n,
{
    if j == n - 1 {
        let last = kept(entries, drop, n).len() - 1;
        assert(kept(entries, drop, n)[last] == entries[j]);
    } else {
        lemma_kept_has(entries, drop, n - 1, j);
        let i = choose|i: int|
            0 <= i < kept(entries, drop, n - 1).len() && #[trigger] kept(entries, drop, n - 1)[i]
                == entries[j];
        assert(kept(entries, drop, n)[i] == entries[j]);
    }
}

/// Taking one key out of a run of different keys leaves every other key
/// where it can be found, one place lower where it stood behind.
pub proof fn lemma_find_after_remove<T>(keys: Seq<T>, at: int, other: T)
    requires
        0 <= at < keys.len(),
        keys[at] != other,
        forall|i: int, j: int| 0 <= i < j < keys.len() ==> keys[i] != keys[j],
    ensures
        find_from(keys.remove(at), other, 0) == match find_from(keys, other, 0) {
            Some(j) => Some(
                if j < at {
                    j
                } else {
                    j - 1
                },
            ),
            None => None,
        },
{
    let rest = keys.remove(at);
    lemma_find_from(keys, other, 0);
    lemma_find_from(rest, other, 0);
    match find_from(keys, other, 0) {
        Some(j) => {
            let k = if j < at {
                j
            } else {
                j - 1
            };
            assert(rest[k] == other);
            assert forall|a: int, b: int| 0 <= a < b < rest.len() implies rest[a] != rest[b] by {}
            lemma_find_unique(rest, other, k);
        },
        None => {
            if let Some(k) = find_from(rest, other, 0) {
                let j = if k < at {
                    k
                } else {
                    k + 1
                };
                assert(keys[j] == other);
            }
        },
    }
}

impl<K: Key, V> Table<K, V> {
    /// The keys, in insertion order.
    pub open spec fn keys(&self) -> Seq<K::V> {
        Seq::new(self.entries@.len(), |i: int| self.entries@[i].key@)
    }

    /// No key occurs twice.
    pub open spec fn wf(&self) -> bool {
        forall|i: int, j: int| 0 <= i < j < self.keys().len() ==> self.keys()[i] != self.keys()[j]
    }

    /// Index of the entry for `key`.
    pub open spec fn find(&self, key: K::V) -> Option<int> {
        find_from(self.keys(), key, 0)
    }

    /// Whether the table has an entry for `key`.
    pub open spec fn has(&self, key: K::V) -> bool {
        self.find(key) is Some
    }

    /// The value stored for `key`.
    pub open spec fn value_of(&self, key: K::V) -> Option<V> {
        match self.find(key) {
            Some(i) => Some(self.entries@[i].value),
            None => None,
        }
    }

    /// An empty table.
    pub fn new() -> (table: Self)
        ensures
            table.entries@.len() == 0,
            table.wf(),
    {
        Table { entries: Vec::new() }
    }

    /// Number of entries.
    pub fn len(&self) -> (n: usize)
        ensures
            n == self.entries@.len(),
    {
        self.entries.len()
    }

    /// Whether there is no entry.
    pub fn is_empty(&self) -> (empty: bool)
        ensures
            empty == (self.entries@.len() == 0),
    {
        self.entries.len() == 0
    }

    /// Index of the entry for `key`.
    pub fn position(&self, key: &K) -> (found: Option<usize>)
        ensures
            match found {
                Some(i) => self.find(key@) == Some(i as int) && i < self.entries@.len()
                    && self.entries@[i as int].key@ == key@,
                None => self.find(key@) is None,
            },
    {
        let mut i: usize = 0;
        while i < self.entries.len()
            invariant
                0 <= i <= self.entries@.len(),
                self.find(key@) == find_from(self.keys(), key@, i as int),
            decreases self.entries@.len() - i,
        {
            if self.entries[i].key.same(key) {
                return Some(i);
            }
            i = i + 1;
        }
        None
    }

    /// Whether the table has an entry for `key`.
    pub fn contains_key(&self, key: &K) -> (present: bool)
        ensures
            present == self.has(key@),
    {
        self.position(key).is_some()
    }

    /// The value stored for `key`.
    pub fn get(&self, key: &K) -> (found: Option<&V>)
        ensures
            match found {
                Some(v) => self.value_of(key@) == Some(*v),
                None => self.value_of(key@) is None,
            },
    {
        match self.position(key) {
            Some(i) => Some(&self.entries[i].value),
            None => None,
        }
    }

    /// Stores `value` for `key`: in the place of the entry the key had, or
    /// else as the last entry. Returns the value that was replaced.
    pub fn insert(&mut self, key: K, value: V) -> (replaced: Option<V>)
        requires
            old(self).wf(),
        ensures
            final(self).wf(),
            replaced == old(self).value_of(key@),
            match old(self).find(key@) {
                Some(i) => {
                    &&& final(self).entries@.len() == old(self).entries@.len()
                    &&& final(self).keys() == old(self).keys()
                    &&& final(self).entries@[i].value == value
                    &&& forall|j: int|
                        0 <= j < old(self).entries@.len() && j != i ==> final(self).entries@[j]
                            == old(self).entries@[j]
                },
                None => final(self).entries@ == old(self).entries@.push(Entry { key, value }),
            },
            final(self).value_of(key@) == Some(value),
            forall|other: K::V|
                other != key@ ==> final(self).value_of(other) == old(self).value_of(other),
    {
        proof {
            lemma_find_from(self.keys(), key@, 0);
        }
        match self.position(&key) {
            Some(i) => {
                let ghost before = *self;
                let old_entry = self.entries.remove(i);
                self.entries.insert(i, Entry { key, value });
                proof {
                    assert(self.keys() =~= before.keys());
                    assert forall|other: K::V| other != key@ implies self.value_of(other)
                        == before.value_of(other) by {
                        lemma_find_from(self.keys(), other, 0);
                        lemma_find_from(before.keys(), other, 0);
                    }
                }
                Some(old_entry.value)
            },
            None => {
                let ghost before = *self;
                let ghost entry = Entry { key, value };
                self.entries.push(Entry { key, value });
                proof {
                    assert(self.keys() =~= before.keys().push(key@));
                    lemma_find_unique(self.keys(), key@, before.entries@.len() as int);
                    assert forall|other: K::V| other != key@ implies self.value_of(other)
                        == before.value_of(other) by {
                        lemma_find_from(self.keys(), other, 0);
                        lemma_find_from(before.keys(), other, 0);
                        if let Some(i) = before.find(other) {
                            lemma_find_unique(self.keys(), other, i);
                        }
                    }
                }
                None
            },
        }
    }

    /// Removes the entry for `key` and returns its value; the other entries
    /// keep their order.
    pub fn remove(&mut self, key: &K) -> (removed: Option<V>)
        requires
            old(self).wf(),
        ensures
            final(self).wf(),
            removed == old(self).value_of(key@),
            match old(self).find(key@) {
                Some(i) => final(self).entries@ == old(self).entries@.remove(i),
                None => *final(self) == *old(self),
            },
            !final(self).has(key@),
            forall|other: K::V|
                other != key@ ==> final(self).value_of(other) == old(self).value_of(other),
    {
        proof {
            lemma_find_from(self.keys(), key@, 0);
        }
        match self.position(key) {
            Some(i) => {
                let ghost before = *self;
                let entry = self.entries.remove(i);
                proof {
                    assert(self.keys() =~= before.keys().remove(i as int));
                    lemma_find_from(self.keys(), key@, 0);
                    assert forall|other: K::V| other != key@ implies self.value_of(other)
                        == before.value_of(other) by {
                        lemma_find_from(self.keys(), other, 0);
                        lemma_find_from(before.keys(), other, 0);
                        if let Some(j) = before.find(other) {
                            if j < i {
                                lemma_find_unique(self.keys(), other, j);
                            } else {
                                lemma_find_unique(self.keys(), other, j - 1);
                            }
                        }
                    }
                }
                Some(entry.value)
            },
            None => None,
        }
    }

    /// The value stored for `key`, to be changed in place. The entry keeps
    /// its key and its place.
    pub fn get_mut(&mut self, key: &K) -> (found: Option<&mut V>)
        ensures
            match found {
                Some(v) => {
                    &&& old(self).find(key@) is Some
                    &&& *v == old(self).entries@[old(self).find(key@)->0].value
                    &&& final(self).entries@ == old(self).entries@.update(
                        old(self).find(key@)->0,
                        Entry { key: old(self).entries@[old(self).find(key@)->0].key, value: *final(v) },
                    )
                },
                None => old(self).find(key@) is None && *final(self) == *old(self),
            },
    {
        match self.position(key) {
            Some(i) => Some(&mut self.entries[i].value),
            None => None,
        }
    }

    /// Takes the entry at index `at` out of the table; the other entries keep
    /// their order.
    pub fn remove_at(&mut self, at: usize) -> (entry: Entry<K, V>)
        requires
            old(self).wf(),
            at < old(self).entries@.len(),
        ensures
            final(self).wf(),
            entry == old(self).entries@[at as int],
            final(self).entries@ == old(self).entries@.remove(at as int),
    {
        let ghost before = *self;
        let entry = self.entries.remove(at);
        proof {
            assert(self.keys() =~= before.keys().remove(at as int));
        }
        entry
    }
}

} // verus!
