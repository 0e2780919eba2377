//! A map that computes the value of a key at most once and then keeps it.
//!
//! Entries are never replaced or removed, so the place of an entry, its
//! slot, identifies it for as long as the map lives.
//!
//! A lookup takes the map by `&mut`. Who shares a map between threads puts
//! it behind a lock and holds the lock for the lookup; then at most one
//! computation for a key is under way at any time, and every thread gets
//! what that one stored.

use vstd::prelude::*;

verus! {

/// A key of a [`OnceMap`]. Keys are told apart by their view, never by
/// where they are stored: a borrowed and an owned form of the same text
/// are one key.
pub trait CacheKey: View + Sized {
    /// Whether the two keys are the same by value.
    fn same_key(&self, other: &Self) -> (same: bool)
        ensures
            same == (self@ == other@),
    ;
}

/// Whether no key stands in two slots.
pub open spec fn distinct_keys<I, V>(slots: Seq<(I, V)>) -> bool {
    forall|i: int, j: int| 0 <= i < j < slots.len() ==> slots[i].0 != slots[j].0
}

/// Whether `key` stands in the slot `slot`.
pub open spec fn holds_key<I, V>(slots: Seq<(I, V)>, key: I, slot: int) -> bool {
    0 <= slot < slots.len() && slots[slot].0 == key
}

/// The slot in which `key` stands, if it stands in any.
pub open spec fn slot_of<I, V>(slots: Seq<(I, V)>, key: I) -> Option<int> {
    if exists|slot: int| holds_key(slots, key, slot) {
        Some(choose|slot: int| holds_key(slots, key, slot))
    } else {
        None
    }
}

/// Where no key stands twice, the slot in which a key stands is its slot.
pub proof fn lemma_slot_is_unique<I, V>(slots: Seq<(I, V)>, key: I, slot: int)
    requires
        distinct_keys(slots),
        holds_key(slots, key, slot),
    ensures
        slot_of(slots, key) == Some(slot),
{
    let chosen = choose|other: int| holds_key(slots, key, other);
    assert(holds_key(slots, key, chosen));
    if chosen < slot {
        assert(slots[chosen].0 != slots[slot].0);
    } else if slot < chosen {
        assert(slots[slot].0 != slots[chosen].0);
    }
}

/// A key that has no slot yet can be stored: it is then found in the slot
/// that was free, every other key stays where it was, and no key stands
/// twice.
pub proof fn lemma_store_new_key<I, V>(slots: Seq<(I, V)>, key: I, value: V)
    requires
        distinct_keys(slots),
        slot_of(slots, key) is None,
    ensures
        distinct_keys(slots.push((key, value))),
        slot_of(slots.push((key, value)), key) == Some(slots.len() as int),
        forall|other: I| other != key ==> slot_of(slots.push((key, value)), other) == slot_of(slots, other),
{
    let after = slots.push((key, value));
    assert forall|i: int, j: int| 0 <= i < j < after.len() implies after[i].0 != after[j].0 by {
        if j == slots.len() {
            assert(!holds_key(slots, key, i));
        }
    }
    assert(holds_key(after, key, slots.len() as int));
    lemma_slot_is_unique(after, key, slots.len() as int);
    assert forall|other: I| other != key implies slot_of(after, other) == slot_of(slots, other) by {
        if exists|slot: int| holds_key(slots, other, slot) {
            let slot = choose|slot: int| holds_key(slots, other, slot);
            assert(holds_key(after, other, slot));
            lemma_slot_is_unique(after, other, slot);
            lemma_slot_is_unique(slots, other, slot);
        } else {
            if exists|slot: int| holds_key(after, other, slot) {
                let slot = choose|slot: int| holds_key(after, other, slot);
                assert(holds_key(slots, other, slot));
            }
        }
    }
}

/// Whatever a successful lookup of `key` leaves behind, the next lookup of
/// `key` is a hit: if the first was a hit, nothing has changed; if it was a
/// miss, the value that was computed stands in the slot that was free.
/// Either way the key now has a slot, the one that the first lookup gave,
/// and in it the value that the first lookup gave.
pub proof fn lemma_lookup_is_idempotent<I, V>(
    before: Seq<(I, V)>,
    after: Seq<(I, V)>,
    key: I,
    computed: V,
)
    requires
        distinct_keys(before),
        match slot_of(before, key) {
            Some(slot) => after == before,
            None => after == before.push((key, computed)),
        },
    ensures
        distinct_keys(after),
        match slot_of(before, key) {
            Some(slot) => slot_of(after, key) == Some(slot),
            None => slot_of(after, key) == Some(before.len() as int) && after[before.len() as int].1
                == computed,
        },
{
    if slot_of(before, key) is None {
        lemma_store_new_key(before, key, computed);
    }
}

/// The memoising map.
#[derive(Debug)]
pub struct OnceMap<K, V> {
    entries: Vec<(K, V)>,
}

impl<K: CacheKey, V> View for OnceMap<K, V> {
    type V = Seq<(K::V, V)>;

    /// The entries in the order in which they were stored, each key by
    /// its view.
    closed spec fn view(&self) -> Seq<(K::V, V)> {
        Seq::new(self.entries@.len(), |i: int| (self.entries@[i].0@, self.entries@[i].1))
    }
}

impl<K: CacheKey, V> OnceMap<K, V> {
    /// The invariant of the map: no key is stored twice.
    pub open spec fn wf(&self) -> bool {
        distinct_keys(self@)
    }

    /// An empty map.
    pub fn new() -> (map: Self)
        ensures
            map@ == Seq::<(K::V, V)>::empty(),
            map.wf(),
    {
        let map = OnceMap { entries: Vec::new() };
        assert(map@ =~= Seq::<(K::V, V)>::empty());
        map
    }

    /// The number of entries.
    pub fn len(&self) -> (len: usize)
        ensures
            len == self@.len(),
    {
        self.entries.len()
    }

    /// The slot of `key`, if it has a value.
    pub fn slot_of(&self, key: &K) -> (found: Option<usize>)
        requires
            self.wf(),
        ensures
            match found {
                Some(slot) => slot_of(self@, key@) == Some(slot as int) && holds_key(
                    self@,
                    key@,
                    slot as int,
                ),
                None => slot_of(self@, key@) is None,
            },
    {
        let mut slot: usize = 0;
        while slot < self.entries.len()
            invariant
                self.wf(),
                slot <= self.entries.len(),
                forall|before: int| 0 <= before < slot ==> !holds_key(self@, key@, before),
            decreases self.entries.len() - slot,
        {
            if self.entries[slot].0.same_key(key) {
                proof {
                    lemma_slot_is_unique(self@, key@, slot as int);
                }
                return Some(slot);
            }
            slot = slot + 1;
        }
        None
    }

    /// The value in a slot.
    pub fn value(&self, slot: usize) -> (value: &V)
        requires
            slot < self@.len(),
        ensures
            *value == self@[slot as int].1,
    {
        &self.entries[slot].1
    }

    /// The value in a slot, to be changed in place. The key of the slot
    /// stays as it is.
    pub fn value_mut(&mut self, slot: usize) -> (value: &mut V)
        requires
            slot < old(self)@.len(),
        ensures
            *value == old(self)@[slot as int].1,
            final(self)@ =~= old(self)@.update(
                slot as int,
                (old(self)@[slot as int].0, *final(value)),
            ),
    {
        &mut self.entries[slot].1
    }

    /// The value of `key`, if it has one.
    pub fn get(&self, key: &K) -> (found: Option<&V>)
        requires
            self.wf(),
        ensures
            match found {
                Some(value) => slot_of(self@, key@) matches Some(slot) && *value == self@[slot].1,
                None => slot_of(self@, key@) is None,
            },
    {
        match self.slot_of(key) {
            Some(slot) => Some(&self.entries[slot].1),
            None => None,
        }
    }

    /// Looks `key` up and gives its slot. Only if it has no value yet is
    /// `compute` called, once; what it returns on success is stored in the
    /// next free slot under the key that it hands back, which is the same
    /// key by value. A failure is handed on and nothing is stored, so that
    /// the next lookup computes again.
    pub fn get_or_try_insert_slot<E, F>(&mut self, key: &K, compute: F) -> (res: Result<usize, E>)
        where F: FnOnce(&K) -> Result<(K, V), E>
        requires
            old(self).wf(),
            slot_of(old(self)@, key@) is None ==> compute.requires((key,)),
            forall|computed: Result<(K, V), E>| #[trigger]
                compute.ensures((key,), computed) ==> (computed matches Ok(entry) ==> entry.0@
                    == key@),
        ensures
            final(self).wf(),
            match slot_of(old(self)@, key@) {
                Some(slot) => (res matches Ok(found) && found == slot) && final(self)@ == old(
                    self,
                )@,
                None => exists|computed: Result<(K, V), E>| #[trigger]
                    compute.ensures((key,), computed) && match computed {
                        Ok(entry) => {
                            &&& res matches Ok(found) && found == old(self)@.len()
                            &&& final(self)@ == old(self)@.push((entry.0@, entry.1))
                        },
                        Err(err) => res == Err::<usize, E>(err) && final(self)@ == old(self)@,
                    },
            },
            res matches Ok(slot) ==> slot_of(final(self)@, key@) == Some(slot as int),
    {
        match self.slot_of(key) {
            Some(slot) => Ok(slot),
            None => {
                match compute(key) {
                    Ok(entry) => {
                        let slot = self.entries.len();
                        let ghost stored = (entry.0@, entry.1);
                        self.entries.push(entry);
                        proof {
                            assert(self@ =~= old(self)@.push(stored));
                            lemma_store_new_key(old(self)@, key@, entry.1);
                        }
                        Ok(slot)
                    },
                    Err(err) => Err(err),
                }
            },
        }
    }

    /// Looks `key` up and hands its value to `adapt`, whose result is
    /// returned. Only if the key has no value yet is `compute` called, once;
    /// what it returns on success is stored before `adapt` sees it. A failure
    /// is handed on and nothing is stored.
    pub fn get_or_try_insert<E, R, F, G>(&mut self, key: &K, compute: F, adapt: G) -> (res: Result<
        R,
        E,
    >)
        where F: FnOnce(&K) -> Result<(K, V), E>, G: FnOnce(&V) -> R
        requires
            old(self).wf(),
            slot_of(old(self)@, key@) is None ==> compute.requires((key,)),
            forall|computed: Result<(K, V), E>| #[trigger]
                compute.ensures((key,), computed) ==> (computed matches Ok(entry) ==> entry.0@
                    == key@ && adapt.requires((&entry.1,))),
            slot_of(old(self)@, key@) matches Some(slot) ==> adapt.requires((&old(self)@[slot].1,)),
        ensures
            final(self).wf(),
            match slot_of(old(self)@, key@) {
                Some(slot) => {
                    &&& final(self)@ == old(self)@
                    &&& res matches Ok(out) && adapt.ensures((&old(self)@[slot].1,), out)
                },
                None => exists|computed: Result<(K, V), E>| #[trigger]
                    compute.ensures((key,), computed) && match computed {
                        Ok(entry) => {
                            &&& final(self)@ == old(self)@.push((entry.0@, entry.1))
                            &&& res matches Ok(out) && adapt.ensures((&entry.1,), out)
                        },
                        Err(err) => res == Err::<R, E>(err) && final(self)@ == old(self)@,
                    },
            },
            res is Ok ==> slot_of(final(self)@, key@) is Some,
    {
        let found = self.get_or_try_insert_slot(key, compute);
        match found {
            Ok(slot) => {
                proof {
                    assert(self@[slot as int].1 == self.entries@[slot as int].1);
                    if slot_of(old(self)@, key@) is None {
                        let computed = choose|computed: Result<(K, V), E>| #[trigger]
                            compute.ensures((key,), computed) && match computed {
                                Ok(entry) => {
                                    &&& found matches Ok(found) && found == old(self)@.len()
                                    &&& self@ == old(self)@.push((entry.0@, entry.1))
                                },
                                Err(err) => found == Err::<usize, E>(err) && self@ == old(self)@,
                            };
                        assert(self@[slot as int].1 == computed->Ok_0.1);
                    }
                }
                Ok(adapt(&self.entries[slot].1))
            },
            Err(err) => Err(err),
        }
    }
}

impl<K: CacheKey, V> Default for OnceMap<K, V> {
    fn default() -> (map: Self)
        ensures
            map@ == Seq::<(K::V, V)>::empty(),
            map.wf(),
    {
        OnceMap::new()
    }
}

} // verus!
