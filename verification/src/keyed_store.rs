//! A map from composite keys to values: a concurrent hash index over slots.

use crate::text;
use dashmap::DashMap;
use std::sync::Arc;
use vstd::prelude::*;

verus! {

/// The concurrent map of the `dashmap` crate.
#[verifier::external_type_specification]
#[verifier::external_body]
#[verifier::reject_recursive_types(K)]
#[verifier::reject_recursive_types(V)]
#[verifier::reject_recursive_types(S)]
pub struct ExDashMap<K, V, S>(DashMap<K, V, S>);

/// The entries of an index.
pub uninterp spec fn index_entries(
    m: DashMap<(Vec<String>, Vec<u64>), usize>,
) -> Map<(Seq<Seq<char>>, Seq<u64>), usize>;

/// `DashMap::new` makes a map without entries.
#[verifier::external_body]
fn index_new() -> (r: DashMap<(Vec<String>, Vec<u64>), usize>)
    ensures
        index_entries(r).dom() == Set::<KeyView>::empty(),
{
    DashMap::new()
}

/// `DashMap::get` finds the value of an equal key. Keys are texts and integers,
/// which are equal where their characters and values are.
#[verifier::external_body]
fn index_get(
    m: &DashMap<(Vec<String>, Vec<u64>), usize>,
    names: &Vec<String>,
    numbers: &Vec<u64>,
) -> (r: Option<usize>)
    ensures
        r == index_entries(*m).get((text::texts(names@), numbers@)),
{
    m.get(&(names.clone(), numbers.clone())).map(|slot| *slot)
}

/// `DashMap::insert` sets the value of a key.
#[verifier::external_body]
fn index_insert(
    m: &mut DashMap<(Vec<String>, Vec<u64>), usize>,
    names: Vec<String>,
    numbers: Vec<u64>,
    slot: usize,
)
    ensures
        index_entries(*final(m)) == index_entries(*old(m)).insert(
            (text::texts(names@), numbers@),
            slot,
        ),
{
    m.insert((names, numbers), slot);
}

/// `DashMap::remove` drops the entry of a key.
#[verifier::external_body]
fn index_remove(
    m: &mut DashMap<(Vec<String>, Vec<u64>), usize>,
    names: &Vec<String>,
    numbers: &Vec<u64>,
)
    ensures
        index_entries(*final(m)) == index_entries(*old(m)).remove((text::texts(names@), numbers@)),
{
    m.remove(&(names.clone(), numbers.clone()));
}

/// `DashMap::len` counts the entries.
#[verifier::external_body]
fn index_len(m: &DashMap<(Vec<String>, Vec<u64>), usize>) -> (r: usize)
    ensures
        r == index_entries(*m).len(),
{
    m.len()
}

/// `Arc::clone` hands out another reference to the same value.
#[verifier::external_body]
pub(crate) fn share<T>(a: &Arc<T>) -> (r: Arc<T>)
    ensures
        r == *a,
{
    a.clone()
}

/// The model of a key.
pub type KeyView = (Seq<Seq<char>>, Seq<u64>);

/// A key: some texts and some numbers.
#[derive(Debug)]
pub struct StoreKey {
    pub names: Vec<String>,
    pub numbers: Vec<u64>,
}

impl View for StoreKey {
    type V = KeyView;

    open spec fn view(&self) -> KeyView {
        (text::texts(self.names@), self.numbers@)
    }
}

/// A copy of a list of texts.
pub fn clone_texts(v: &Vec<String>) -> (r: Vec<String>)
    ensures
        r@ == v@,
{
    let mut r: Vec<String> = Vec::new();
    let mut i: usize = 0;
    while i < v.len()
        invariant
            i <= v@.len(),
            r@ == v@.take(i as int),
        decreases v@.len() - i,
    {
        r.push(v[i].clone());
        i += 1;
    }
    r
}

impl Clone for StoreKey {
    fn clone(&self) -> (r: Self)
        ensures
            r@ == self@,
    {
        StoreKey { names: clone_texts(&self.names), numbers: self.numbers.clone() }
    }
}

/// A slot in use: a key and its value.
struct Slot<V> {
    key: StoreKey,
    value: V,
}

/// A map from keys to values.
pub struct KeyedStore<V> {
    index: DashMap<(Vec<String>, Vec<u64>), usize>,
    slots: Vec<Option<Slot<V>>>,
    free: Vec<usize>,
}

impl<V> View for KeyedStore<V> {
    type V = Map<KeyView, V>;

    closed spec fn view(&self) -> Map<KeyView, V> {
        Map::new(
            |k: KeyView| index_entries(self.index).contains_key(k),
            |k: KeyView| (self.slots@[index_entries(self.index)[k] as int]->0).value,
        )
    }
}

impl<V> KeyedStore<V> {
    /// The index and the slots name each other, and free slots are empty.
    pub closed spec fn wf(&self) -> bool {
        let e = index_entries(self.index);
        &&& forall|k: KeyView| #[trigger]
            e.contains_key(k) ==> e[k] < self.slots@.len() && self.slots@[e[k] as int] is Some
                && (self.slots@[e[k] as int]->0).key@ == k
        &&& forall|i: int|
            0 <= i < self.slots@.len() && (#[trigger] self.slots@[i]) is Some ==> e.contains_key(
                (self.slots@[i]->0).key@,
            ) && e[(self.slots@[i]->0).key@] == i
        &&& forall|j: int|
            0 <= j < self.free@.len() ==> (#[trigger] self.free@[j]) < self.slots@.len()
                && self.slots@[self.free@[j] as int] is None
        &&& self.free@.no_duplicates()
        &&& e.dom().finite()
    }

    pub fn new() -> (r: Self)
        ensures
            r.wf(),
            r@ == Map::<KeyView, V>::empty(),
    {
        let r = KeyedStore { index: index_new(), slots: Vec::new(), free: Vec::new() };
        assert(r@ =~= Map::<KeyView, V>::empty());
        r
    }

    pub fn get(&self, key: &StoreKey) -> (r: Option<&V>)
        requires
            self.wf(),
        ensures
            match r {
                Some(v) => self@.contains_key(key@) && self@[key@] == *v,
                None => !self@.contains_key(key@),
            },
    {
        match index_get(&self.index, &key.names, &key.numbers) {
            Some(i) => {
                assert(index_entries(self.index).contains_key(key@));
                match &self.slots[i] {
                    Some(entry) => Some(&entry.value),
                    None => None,
                }
            },
            None => None,
        }
    }

    pub fn contains(&self, key: &StoreKey) -> (r: bool)
        requires
            self.wf(),
        ensures
            r == self@.contains_key(key@),
    {
        self.get(key).is_some()
    }

    /// How many entries there are.
    pub fn len(&self) -> (r: usize)
        requires
            self.wf(),
        ensures
            r == self@.len(),
            self@.dom().finite(),
    {
        assert(self@.dom() =~= index_entries(self.index).dom());
        index_len(&self.index)
    }

    /// Sets the value of a key.
    pub fn insert(&mut self, key: StoreKey, value: V)
        requires
            old(self).wf(),
        ensures
            final(self).wf(),
            final(self)@ == old(self)@.insert(key@, value),
    {
        let ghost before = *self;
        let ghost e = index_entries(self.index);
        let ghost k = key@;
        match index_get(&self.index, &key.names, &key.numbers) {
            Some(i) => {
                assert(e.contains_key(k));
                self.slots.set(i, Some(Slot { key, value }));
                assert(self.wf());
                assert(self@ =~= before@.insert(k, value));
            },
            None => {
                let names = clone_texts(&key.names);
                let numbers = key.numbers.clone();
                match self.free.pop() {
                    Some(i) => {
                        let ghost popped = before.free@.last();
                        assert(popped == i);
                        assert(before.free@[before.free@.len() - 1] == i);
                        self.slots.set(i, Some(Slot { key, value }));
                        index_insert(&mut self.index, names, numbers, i);
                        assert forall|j: int| 0 <= j < self.free@.len() implies (
                        #[trigger] self.free@[j]) < self.slots@.len()
                            && self.slots@[self.free@[j] as int] is None by {
                            assert(before.free@[j] == self.free@[j]);
                        }
                        assert(self.wf());
                        assert(self@ =~= before@.insert(k, value));
                    },
                    None => {
                        let i: usize = self.slots.len();
                        self.slots.push(Some(Slot { key, value }));
                        index_insert(&mut self.index, names, numbers, i);
                        assert(self.wf());
                        assert(self@ =~= before@.insert(k, value));
                    },
                }
            },
        }
    }

    /// Drops the entry of a key and hands out its value.
    pub fn remove(&mut self, key: &StoreKey) -> (r: Option<V>)
        requires
            old(self).wf(),
        ensures
            final(self).wf(),
            final(self)@ == old(self)@.remove(key@),
            match r {
                Some(v) => old(self)@.contains_key(key@) && old(self)@[key@] == v,
                None => !old(self)@.contains_key(key@),
            },
    {
        let ghost before = *self;
        let ghost e = index_entries(self.index);
        match index_get(&self.index, &key.names, &key.numbers) {
            Some(i) => {
                assert(e.contains_key(key@));
                index_remove(&mut self.index, &key.names, &key.numbers);
                let mut slot: Option<Slot<V>> = None;
                std::mem::swap(&mut slot, &mut self.slots[i]);
                self.free.push(i);
                assert forall|j: int| 0 <= j < self.free@.len() implies (
                #[trigger] self.free@[j]) < self.slots@.len()
                    && self.slots@[self.free@[j] as int] is None by {
                    if j < before.free@.len() {
                        assert(before.free@[j] == self.free@[j]);
                    }
                }
                assert(self.wf());
                assert(self@ =~= before@.remove(key@));
                let r = match slot {
                    Some(s) => Some(s.value),
                    None => None,
                };
                r
            },
            None => {
                assert(self@ =~= before@.remove(key@));
                None
            },
        }
    }

    /// The keys of all entries, each once, in no particular order.
    pub fn keys(&self) -> (r: Vec<StoreKey>)
        requires
            self.wf(),
        ensures
            forall|k: KeyView|
                self@.contains_key(k) <==> exists|j: int| 0 <= j < r@.len() && #[trigger] r@[j]@ == k,
            forall|i: int, j: int|
                0 <= i < j < r@.len() ==> (#[trigger] r@[i])@ != (#[trigger] r@[j])@,
    {
        let mut r: Vec<StoreKey> = Vec::new();
        let mut i: usize = 0;
        let ghost e = index_entries(self.index);
        while i < self.slots.len()
            invariant
                self.wf(),
                i <= self.slots@.len(),
                e == index_entries(self.index),
                forall|j: int|
                    0 <= j < r@.len() ==> e.contains_key((#[trigger] r@[j])@) && e[r@[j]@] < i,
                forall|k: KeyView| #[trigger]
                    e.contains_key(k) && e[k] < i ==> exists|j: int|
                        0 <= j < r@.len() && #[trigger] r@[j]@ == k,
                forall|a: int, b: int|
                    0 <= a < b < r@.len() ==> (#[trigger] r@[a])@ != (#[trigger] r@[b])@,
            decreases self.slots@.len() - i,
        {
            let ghost before = r@;
            if let Some(slot) = &self.slots[i] {
                assert(self.slots@[i as int] is Some);
                r.push(slot.key.clone());
                assert(r@[before.len() as int]@ == slot.key@);
            }
            assert forall|k: KeyView| #[trigger] e.contains_key(k) && e[k] < i + 1 implies exists|
                j: int,
            | 0 <= j < r@.len() && #[trigger] r@[j]@ == k by {
                if e[k] < i {
                    let j = choose|j: int| 0 <= j < before.len() && #[trigger] before[j]@ == k;
                    assert(r@[j]@ == k);
                } else {
                    assert(r@[before.len() as int]@ == k);
                }
            }
            i += 1;
        }
        assert forall|k: KeyView|
            self@.contains_key(k) <==> exists|j: int| 0 <= j < r@.len() && #[trigger] r@[j]@ == k by {
            if e.contains_key(k) {
                assert(e[k] < self.slots@.len());
            }
        }
        r
    }

    /// Drops all entries.
    pub fn clear(&mut self)
        ensures
            final(self).wf(),
            final(self)@ == Map::<KeyView, V>::empty(),
    {
        *self = KeyedStore::new();
    }
}

} // verus!
