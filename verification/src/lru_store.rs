//! A map of limited size: where it is full, the entry that was written longest ago
//! makes room for a new one.

use lru::LruCache;
use std::num::NonZeroUsize;
use vstd::prelude::*;

verus! {

/// The map of the `lru` crate.
#[verifier::external_type_specification]
#[verifier::external_body]
#[verifier::reject_recursive_types(K)]
#[verifier::reject_recursive_types(V)]
#[verifier::reject_recursive_types(S)]
pub struct ExLruCache<K, V, S>(LruCache<K, V, S>);

/// The hasher of such a map.
#[verifier::external_type_specification]
#[verifier::external_body]
pub struct ExLruHasher(lru::DefaultHasher);

/// The model of a key: a text, or none.
pub type LruKey = (bool, Seq<char>);

/// The entries of a map, the one that was written last first.
pub uninterp spec fn lru_entries(m: LruCache<(bool, String), usize>) -> Seq<
    ((bool, Seq<char>), usize),
>;

/// How many entries a map may hold.
pub uninterp spec fn lru_limit(m: LruCache<(bool, String), usize>) -> usize;

/// Whether there is an entry for a key.
pub open spec fn has_key<V>(s: Seq<(LruKey, V)>, k: LruKey) -> bool {
    exists|i: int| 0 <= i < s.len() && (#[trigger] s[i]).0 == k
}

/// Where the entry for a key is.
pub open spec fn key_index<V>(s: Seq<(LruKey, V)>, k: LruKey) -> int {
    choose|i: int| 0 <= i < s.len() && (#[trigger] s[i]).0 == k
}

/// What a write makes of the entries: the written one comes first, and takes the
/// place of the one for its key, or of the last one where there is no room.
pub open spec fn pushed<V>(s: Seq<(LruKey, V)>, limit: int, k: LruKey, v: V) -> Seq<(LruKey, V)> {
    if has_key(s, k) {
        seq![(k, v)] + s.remove(key_index(s, k))
    } else if s.len() == limit {
        seq![(k, v)] + s.drop_last()
    } else {
        seq![(k, v)] + s
    }
}

/// The value that leaves where one is written.
pub open spec fn displaced<V>(s: Seq<(LruKey, V)>, limit: int, k: LruKey) -> Option<V> {
    if has_key(s, k) {
        Some(s[key_index(s, k)].1)
    } else if s.len() == limit {
        Some(s.last().1)
    } else {
        None
    }
}

/// What taking a key out makes of the entries.
pub open spec fn popped<V>(s: Seq<(LruKey, V)>, k: LruKey) -> Seq<(LruKey, V)> {
    if has_key(s, k) {
        s.remove(key_index(s, k))
    } else {
        s
    }
}

/// No key has two entries.
pub open spec fn keys_differ<V>(s: Seq<(LruKey, V)>) -> bool {
    forall|i: int, j: int| 0 <= i < j < s.len() ==> (#[trigger] s[i]).0 != (#[trigger] s[j]).0
}

/// `LruCache::sparse` makes a map without entries that holds at most as many as it is
/// told. It sets no room aside for them.
#[verifier::external_body]
fn lru_new(limit: usize) -> (r: LruCache<(bool, String), usize>)
    requires
        0 < limit,
    ensures
        lru_entries(r).len() == 0,
        lru_limit(r) == limit,
{
    LruCache::sparse(NonZeroUsize::new(limit).unwrap())
}

/// `LruCache::push` writes an entry and puts it first. It hands out what the entry
/// displaced: the former value of the key, or the last entry of a full map.
#[verifier::external_body]
fn lru_push(m: &mut LruCache<(bool, String), usize>, is_text: bool, key: String, slot: usize) -> (r:
    Option<usize>)
    ensures
        lru_entries(*final(m)) == pushed(
            lru_entries(*old(m)),
            lru_limit(*old(m)) as int,
            (is_text, key@),
            slot,
        ),
        lru_limit(*final(m)) == lru_limit(*old(m)),
        r == displaced(lru_entries(*old(m)), lru_limit(*old(m)) as int, (is_text, key@)),
{
    m.push((is_text, key), slot).map(|entry| entry.1)
}

/// `LruCache::peek` finds the value of a key and leaves the order alone.
#[verifier::external_body]
fn lru_peek(m: &LruCache<(bool, String), usize>, is_text: bool, key: &str) -> (r: Option<usize>)
    ensures
        r == if has_key(lru_entries(*m), (is_text, key@)) {
            Some(lru_entries(*m)[key_index(lru_entries(*m), (is_text, key@))].1)
        } else {
            None
        },
{
    m.peek(&(is_text, key.to_owned())).copied()
}

/// `LruCache::pop` drops the entry of a key and hands out its value.
#[verifier::external_body]
fn lru_pop(m: &mut LruCache<(bool, String), usize>, is_text: bool, key: &str) -> (r: Option<usize>)
    ensures
        lru_entries(*final(m)) == popped(lru_entries(*old(m)), (is_text, key@)),
        lru_limit(*final(m)) == lru_limit(*old(m)),
        r == if has_key(lru_entries(*old(m)), (is_text, key@)) {
            Some(lru_entries(*old(m))[key_index(lru_entries(*old(m)), (is_text, key@))].1)
        } else {
            None
        },
{
    m.pop(&(is_text, key.to_owned()))
}

/// The model of an optional text as a key.
pub open spec fn key_of(t: Option<Seq<char>>) -> LruKey {
    match t {
        Some(v) => (true, v),
        None => (false, Seq::empty()),
    }
}

/// A map from texts, or none, to values.
pub struct LruStore<V> {
    index: LruCache<(bool, String), usize>,
    slots: Vec<Option<V>>,
    free: Vec<usize>,
}

impl<V> View for LruStore<V> {
    type V = Seq<(LruKey, V)>;

    closed spec fn view(&self) -> Seq<(LruKey, V)> {
        let e = lru_entries(self.index);
        Seq::new(e.len(), |i: int| (e[i].0, self.slots@[e[i].1 as int]->0))
    }
}

impl<V> LruStore<V> {
    /// Every entry has a slot of its own, and free slots are empty.
    pub closed spec fn wf(&self) -> bool {
        let e = lru_entries(self.index);
        &&& keys_differ(e)
        &&& e.len() <= lru_limit(self.index)
        &&& lru_limit(self.index) > 0
        &&& forall|i: int|
            0 <= i < e.len() ==> (#[trigger] e[i]).1 < self.slots@.len()
                && self.slots@[e[i].1 as int] is Some
        &&& forall|i: int, j: int|
            0 <= i < j < e.len() ==> (#[trigger] e[i]).1 != (#[trigger] e[j]).1
        &&& forall|j: int|
            0 <= j < self.free@.len() ==> (#[trigger] self.free@[j]) < self.slots@.len()
                && self.slots@[self.free@[j] as int] is None
        &&& self.free@.no_duplicates()
    }

    /// How many entries there may be.
    pub closed spec fn limit(&self) -> int {
        lru_limit(self.index) as int
    }

    pub fn new(limit: usize) -> (r: Self)
        requires
            0 < limit,
        ensures
            r.wf(),
            r@ == Seq::<(LruKey, V)>::empty(),
            r.limit() == limit,
    {
        let r = LruStore { index: lru_new(limit), slots: Vec::new(), free: Vec::new() };
        assert(r@ =~= Seq::<(LruKey, V)>::empty());
        r
    }

    /// The value of a key.
    pub fn peek(&self, key: Option<&str>) -> (r: Option<&V>)
        requires
            self.wf(),
        ensures
            match r {
                Some(v) => has_key(self@, key_of(option_text(key))) && *v == self@[key_index(
                    self@,
                    key_of(option_text(key)),
                )].1,
                None => !has_key(self@, key_of(option_text(key))),
            },
    {
        let ghost k = key_of(option_text(key));
        proof {
            lemma_same_keys(lru_entries(self.index), self@, k);
        }
        let found = match key {
            Some(t) => lru_peek(&self.index, true, t),
            None => {
                proof {
                    reveal_strlit("");
                    assert(""@ =~= Seq::<char>::empty());
                }
                lru_peek(&self.index, false, "")
            },
        };
        match found {
            Some(slot) => {
                match &self.slots[slot] {
                    Some(v) => Some(v),
                    None => None,
                }
            },
            None => None,
        }
    }

    /// Writes the value of a key.
    pub fn push(&mut self, key: Option<&str>, value: V)
        requires
            old(self).wf(),
        ensures
            final(self).wf(),
            final(self).limit() == old(self).limit(),
            final(self)@ == pushed(old(self)@, old(self).limit(), key_of(option_text(key)), value),
    {
        let ghost k = key_of(option_text(key));
        let ghost before = *self;
        let ghost e = lru_entries(self.index);
        let is_text = key.is_some();
        let text = match key {
            Some(t) => t.to_owned(),
            None => {
                proof {
                    reveal_strlit("");
                    assert(""@ =~= Seq::<char>::empty());
                }
                "".to_owned()
            },
        };
        assert(k == (is_text, text@));
        proof {
            lemma_same_keys(e, self@, k);
        }
        match lru_peek(&self.index, is_text, text.as_str()) {
            Some(slot) => {
                self.slots.set(slot, Some(value));
                lru_push(&mut self.index, is_text, text, slot);
                proof {
                    let after = lru_entries(self.index);
                    let at = key_index(e, k);
                    assert(after =~= seq![(k, slot)] + e.remove(at));
                    assert forall|i: int| 1 <= i < after.len() implies after[i] == e[if i - 1 < at {
                        i - 1
                    } else {
                        i
                    }] by {}
                    assert(self.wf());
                    assert(self@ =~= pushed(before@, before.limit(), k, value));
                }
            },
            None => {
                let slot: usize = match self.free.pop() {
                    Some(i) => {
                        assert(before.free@[before.free@.len() - 1] == i);
                        self.slots.set(i, Some(value));
                        i
                    },
                    None => {
                        let i: usize = self.slots.len();
                        self.slots.push(Some(value));
                        i
                    },
                };
                assert forall|i: int| 0 <= i < e.len() implies (#[trigger] e[i]).1 != slot by {}
                let out = lru_push(&mut self.index, is_text, text, slot);
                let ghost after = lru_entries(self.index);
                let ghost kept = self.free@;
                if let Some(left) = out {
                    assert(e[e.len() - 1].1 == left);
                    self.slots.set(left, None);
                    self.free.push(left);
                }
                proof {
                    assert forall|i: int| 1 <= i < after.len() implies after[i] == e[i - 1] by {}
                    assert(after[0] == (k, slot));
                    assert forall|j: int| 0 <= j < self.free@.len() implies (
                    #[trigger] self.free@[j]) < self.slots@.len()
                        && self.slots@[self.free@[j] as int] is None by {
                        if j < kept.len() {
                            assert(before.free@[j] == self.free@[j]);
                        }
                    }
                    assert(self.wf());
                    assert(self@ =~= pushed(before@, before.limit(), k, value));
                }
            },
        }
    }

    /// Drops the entry of a key.
    pub fn pop(&mut self, key: Option<&str>)
        requires
            old(self).wf(),
        ensures
            final(self).wf(),
            final(self).limit() == old(self).limit(),
            final(self)@ == popped(old(self)@, key_of(option_text(key))),
    {
        let ghost k = key_of(option_text(key));
        let ghost before = *self;
        let ghost e = lru_entries(self.index);
        proof {
            lemma_same_keys(e, self@, k);
        }
        let out = match key {
            Some(t) => lru_pop(&mut self.index, true, t),
            None => {
                proof {
                    reveal_strlit("");
                    assert(""@ =~= Seq::<char>::empty());
                }
                lru_pop(&mut self.index, false, "")
            },
        };
        if let Some(left) = out {
            let ghost at = key_index(e, k);
            assert(e[at].1 == left);
            self.slots.set(left, None);
            self.free.push(left);
            proof {
                let after = lru_entries(self.index);
                assert forall|i: int| 0 <= i < after.len() implies after[i] == e[if i < at {
                    i
                } else {
                    i + 1
                }] by {}
                assert forall|j: int| 0 <= j < self.free@.len() implies (
                #[trigger] self.free@[j]) < self.slots@.len()
                    && self.slots@[self.free@[j] as int] is None by {
                    if j < before.free@.len() {
                        assert(before.free@[j] == self.free@[j]);
                    }
                }
                assert(self.wf());
            }
        }
        assert(self@ =~= popped(before@, k));
    }
}

/// The model of an optional text.
pub open spec fn option_text(t: Option<&str>) -> Option<Seq<char>> {
    match t {
        Some(v) => Some(v@),
        None => None,
    }
}

/// Entries with the same keys in the same places have a key in the same place.
proof fn lemma_same_keys<A, B>(a: Seq<(LruKey, A)>, b: Seq<(LruKey, B)>, k: LruKey)
    requires
        a.len() == b.len(),
        forall|i: int| 0 <= i < a.len() ==> (#[trigger] a[i]).0 == (#[trigger] b[i]).0,
        keys_differ(a),
    ensures
        has_key(a, k) == has_key(b, k),
        has_key(a, k) ==> key_index(a, k) == key_index(b, k) && 0 <= key_index(a, k) < a.len()
            && a[key_index(a, k)].0 == k,
{
    if has_key(a, k) {
        let i = key_index(a, k);
        assert(b[i].0 == k);
        let j = key_index(b, k);
        assert(b[j].0 == k);
        assert(a[j].0 == k);
        if i < j {
            assert(a[i].0 != a[j].0);
        } else if j < i {
            assert(a[j].0 != a[i].0);
        }
    } else if has_key(b, k) {
        let j = key_index(b, k);
        assert(a[j].0 == b[j].0);
    }
}

/// What is pushed comes first, with its value. Every other entry stays, but for the last
/// one where the store is full and the key is new. No key is ever there twice, and no more
/// entries than the limit.
pub proof fn law_the_oldest_entry_makes_room<V>(
    s: Seq<(LruKey, V)>,
    limit: int,
    k: LruKey,
    v: V,
    e: (LruKey, V),
)
    requires
        keys_differ(s),
        s.len() <= limit,
        limit > 0,
    ensures
        pushed(s, limit, k, v)[0] == (k, v),
        0 < pushed(s, limit, k, v).len() <= limit,
        keys_differ(pushed(s, limit, k, v)),
        pushed(s, limit, k, v).contains(e) <==> e == (k, v) || (s.contains(e) && e.0 != k && !(
        s.len() == limit && !has_key(s, k) && e == s.last())),
{
    let p = pushed(s, limit, k, v);
    if has_key(s, k) {
        let n = key_index(s, k);
        assert(0 <= n < s.len() && s[n].0 == k);
        let rest = s.remove(n);
        assert(forall|i: int|
            0 <= i < rest.len() ==> rest[i] == (if i < n {
                s[i]
            } else {
                s[i + 1]
            }));
        assert(p =~= seq![(k, v)] + rest);
        if p.contains(e) {
            let i = choose|i: int| 0 <= i < p.len() && p[i] == e;
            if i > 0 {
                assert(p[i] == rest[i - 1]);
                let j = if i - 1 < n {
                    i - 1
                } else {
                    i
                };
                assert(s[j] == e);
                assert(s.contains(e));
            }
        }
        if s.contains(e) && e.0 != k {
            let j = choose|j: int| 0 <= j < s.len() && s[j] == e;
            let i = if j < n {
                j + 1
            } else {
                j
            };
            assert(p[i] == e);
        }
    } else {
        let rest = if s.len() == limit {
            s.drop_last()
        } else {
            s
        };
        assert(p =~= seq![(k, v)] + rest);
        assert(forall|i: int| 0 <= i < rest.len() ==> rest[i] == s[i]);
        if p.contains(e) {
            let i = choose|i: int| 0 <= i < p.len() && p[i] == e;
            if i > 0 {
                assert(p[i] == rest[i - 1]);
                assert(s[i - 1] == e);
                assert(s.contains(e));
                if s.len() == limit && e == s.last() {
                    assert(s[i - 1].0 == s[s.len() - 1].0);
                }
            }
        }
        if s.contains(e) && e.0 != k && !(s.len() == limit && e == s.last()) {
            let j = choose|j: int| 0 <= j < s.len() && s[j] == e;
            assert(p[j + 1] == e);
        }
    }
    assert(p[0] == (k, v));
}

/// What is popped is gone, and every other entry stays.
pub proof fn law_only_the_popped_entry_goes<V>(s: Seq<(LruKey, V)>, k: LruKey, e: (LruKey, V))
    requires
        keys_differ(s),
    ensures
        !has_key(popped(s, k), k),
        popped(s, k).contains(e) <==> s.contains(e) && e.0 != k,
        keys_differ(popped(s, k)),
{
    let p = popped(s, k);
    if has_key(s, k) {
        let n = key_index(s, k);
        assert(0 <= n < s.len() && s[n].0 == k);
        assert(forall|i: int|
            0 <= i < p.len() ==> p[i] == (if i < n {
                s[i]
            } else {
                s[i + 1]
            }));
        if p.contains(e) {
            let i = choose|i: int| 0 <= i < p.len() && p[i] == e;
            let j = if i < n {
                i
            } else {
                i + 1
            };
            assert(s[j] == e);
        }
        if s.contains(e) && e.0 != k {
            let j = choose|j: int| 0 <= j < s.len() && s[j] == e;
            let i = if j < n {
                j
            } else {
                j - 1
            };
            assert(p[i] == e);
        }
    } else if s.contains(e) {
        let j = choose|j: int| 0 <= j < s.len() && s[j] == e;
        assert(s[j].0 != k);
    }
}

/// A key without a text is none of those with one, and different texts are different keys.
pub proof fn law_texts_are_different_keys(a: Option<Seq<char>>, b: Option<Seq<char>>)
    ensures
        key_of(a) == key_of(b) <==> a == b,
{
}

} // verus!
