//! The low-level cast map, generic over the backing `slotmap` map.
//!
//! [`UnsafeCastMapG`] hands out typed [`CastKey`]s and looks values up by
//! them. Its typed `get`, `remove`, `detach` and friends trust the key's
//! metadata: each requires that, when the key's slot is live, the metadata
//! describes the concrete type of the value stored there. The checked
//! [`CastMapG`](crate::cast_map::CastMapG) tests that instead of requiring
//! it.
//!
//! A slot stores a [`TaggedHandle`]: the handle standing for the stored
//! pointer (the map's "output") and the concrete type id of the value behind
//! it. The map's state is the backend's: its live slots, its detached keys
//! and its capacity.

use std::any::TypeId;
use std::collections::TryReserveError;
use std::marker::PhantomData;
use vstd::prelude::*;

use crate::any_haver::{type_id_of, type_id_spec, type_ids_equal};
use crate::cast_key::{CastKey, InnerKey};
use crate::slotmap_trait::{
    backend_wf, bumped, key_bits, key_index, key_version, keys_of_refs, no_versions, retire,
    versions_after_issue, versions_wf, lists_handle_refs, lists_slots, value_refs_written, live_and_disjoint,
    max_slots, no_live_slots, reserve_limit, with_handles, DenseSlots, SlotMapTrait, SparseSlots,
};
use crate::type_tagged_ptr::{ConcreteTypeId, TaggedHandle};

verus! {

/// `key`'s slot is live in `slots` and its metadata is the stored value's
/// type id.
pub open spec fn key_in_slots<O: ?Sized>(key: CastKey<O>, slots: Map<u64, TaggedHandle>) -> bool {
    &&& slots.contains_key(key.key_spec()@)
    &&& key.meta_spec() == slots[key.key_spec()@].tag()
}

/// `keys` lists the live slots of `slots` as keys whose metadata is the
/// stored value's type id, each slot once.
pub open spec fn lists_keys<O: ?Sized>(keys: Seq<CastKey<O>>, slots: Map<u64, TaggedHandle>) -> bool {
    &&& keys.len() == slots.len()
    &&& forall|i: int| 0 <= i < keys.len() ==> key_in_slots(#[trigger] keys[i], slots)
    &&& forall|k: u64| slots.contains_key(k) ==> exists|i: int| 0 <= i < keys.len() && #[trigger] keys[i].key_spec()@ == k
    &&& forall|i: int, j: int| 0 <= i < j < keys.len() ==> keys[i].key_spec()@ != keys[j].key_spec()@
}

/// `pairs` lists the live slots of `slots`, each once, as (key, stored value)
/// with the key's metadata being the stored value's type id.
pub open spec fn lists_pairs<O: ?Sized, V>(
    pairs: Seq<(CastKey<O>, V)>,
    slots: Map<u64, TaggedHandle>,
    value_of: spec_fn(TaggedHandle) -> V,
) -> bool {
    &&& pairs.len() == slots.len()
    &&& forall|i: int| 0 <= i < pairs.len() ==> pair_in_slots(#[trigger] pairs[i], slots, value_of)
    &&& forall|k: u64| slots.contains_key(k) ==> exists|i: int| 0 <= i < pairs.len() && #[trigger] pairs[i].0.key_spec()@ == k
    &&& forall|i: int, j: int| 0 <= i < j < pairs.len() ==> pairs[i].0.key_spec()@ != pairs[j].0.key_spec()@
}

/// `pair` is a live slot of `slots`: its key's slot is live, the key's
/// metadata is the stored value's type id, and its value is `value_of` the
/// stored value.
pub open spec fn pair_in_slots<O: ?Sized, V>(
    pair: (CastKey<O>, V),
    slots: Map<u64, TaggedHandle>,
    value_of: spec_fn(TaggedHandle) -> V,
) -> bool {
    &&& slots.contains_key(pair.0.key_spec()@)
    &&& pair.0.meta_spec() == slots[pair.0.key_spec()@].tag()
    &&& pair.1 == value_of(slots[pair.0.key_spec()@])
}

/// The handle a stored value holds.
pub open spec fn handle_of(v: TaggedHandle) -> u64 {
    v.pointer()
}

/// The stored value itself.
pub open spec fn whole(v: TaggedHandle) -> TaggedHandle {
    v
}

/// Whether a typed lookup by `key` may rebuild its value from the key's
/// metadata: the key's slot, if live, stores a value of the concrete type
/// the metadata describes.
pub open spec fn meta_fits<T: ?Sized>(slots: Map<u64, TaggedHandle>, key: CastKey<T>) -> bool {
    slots.contains_key(key.key_spec()@) ==> slots[key.key_spec()@].tag() == key.meta_spec()
}

/// `after` is `before` plus one slot under `key`, which was neither live nor
/// detached before.
pub open spec fn inserted_fresh(
    before: Map<u64, TaggedHandle>,
    detached: Set<u64>,
    after: Map<u64, TaggedHandle>,
    key: u64,
) -> bool {
    &&& !before.contains_key(key)
    &&& !detached.contains(key)
    &&& after.contains_key(key)
    &&& after == before.insert(key, after[key])
}

/// A sequence of keys built one for one from a listing of the live slots
/// lists those slots.
proof fn lemma_keys_from_entries<O: ?Sized>(
    entries: Seq<(InnerKey, TaggedHandle)>,
    keys: Seq<CastKey<O>>,
    slots: Map<u64, TaggedHandle>,
)
    requires
        lists_slots(entries, slots),
        keys.len() == entries.len(),
        forall|j: int| 0 <= j < keys.len() ==> (#[trigger] keys[j]).key_spec() == entries[j].0
            && keys[j].meta_spec() == entries[j].1.tag(),
    ensures
        lists_keys(keys, slots),
{
    assert forall|i: int| 0 <= i < keys.len() implies key_in_slots(#[trigger] keys[i], slots) by {
        assert(slots.contains_key(entries[i].0@));
    }
    assert forall|k: u64| slots.contains_key(k) implies exists|i: int| 0 <= i < keys.len() && #[trigger] keys[i].key_spec()@ == k by {
        let i = choose|i: int| 0 <= i < entries.len() && #[trigger] entries[i].0@ == k;
        assert(keys[i].key_spec()@ == k);
    }
    assert forall|i: int, j: int| 0 <= i < j < keys.len() implies keys[i].key_spec()@ != keys[j].key_spec()@ by {
        assert(keys[i].key_spec() == entries[i].0);
        assert(keys[j].key_spec() == entries[j].0);
    }
}

/// A sequence of (key, value) pairs built one for one from a listing of the
/// live slots lists those slots.
proof fn lemma_pairs_from_entries<O: ?Sized, V>(
    entries: Seq<(InnerKey, TaggedHandle)>,
    pairs: Seq<(CastKey<O>, V)>,
    slots: Map<u64, TaggedHandle>,
    value_of: spec_fn(TaggedHandle) -> V,
)
    requires
        lists_slots(entries, slots),
        pairs.len() == entries.len(),
        forall|j: int| 0 <= j < pairs.len() ==> (#[trigger] pairs[j]).0.key_spec() == entries[j].0
            && pairs[j].0.meta_spec() == entries[j].1.tag() && pairs[j].1 == value_of(entries[j].1),
    ensures
        lists_pairs(pairs, slots, value_of),
{
    assert forall|i: int| 0 <= i < pairs.len() implies pair_in_slots(#[trigger] pairs[i], slots, value_of) by {
        assert(slots.contains_key(entries[i].0@));
    }
    assert forall|k: u64| slots.contains_key(k) implies exists|i: int| 0 <= i < pairs.len() && #[trigger] pairs[i].0.key_spec()@ == k by {
        let i = choose|i: int| 0 <= i < entries.len() && #[trigger] entries[i].0@ == k;
        assert(pairs[i].0.key_spec()@ == k);
    }
    assert forall|i: int, j: int| 0 <= i < j < pairs.len() implies pairs[i].0.key_spec()@ != pairs[j].0.key_spec()@ by {
        assert(pairs[i].0.key_spec() == entries[i].0);
        assert(pairs[j].0.key_spec() == entries[j].0);
    }
}

/// Keys for listed slots: each key's metadata is its stored value's type id.
fn keys_of<O: ?Sized>(entries: &Vec<(InnerKey, TaggedHandle)>) -> (r: Vec<CastKey<O>>)
    ensures
        r@.len() == entries@.len(),
        forall|j: int| 0 <= j < r@.len() ==> (#[trigger] r@[j]).key_spec() == entries@[j].0
            && r@[j].meta_spec() == entries@[j].1.tag(),
{
    let mut keys: Vec<CastKey<O>> = Vec::new();
    let mut i: usize = 0;
    while i < entries.len()
        invariant
            0 <= i <= entries@.len(),
            keys@.len() == i,
            forall|j: int| 0 <= j < i ==> (#[trigger] keys@[j]).key_spec() == entries@[j].0
                && keys@[j].meta_spec() == entries@[j].1.tag(),
        decreases entries@.len() - i,
    {
        let (k, v) = entries[i];
        keys.push(CastKey::from_raw_parts(k, v.concrete_type_id()));
        i += 1;
    }
    keys
}

/// (key, handle) pairs for listed slots.
fn handle_pairs_of<O: ?Sized>(entries: &Vec<(InnerKey, TaggedHandle)>) -> (r: Vec<(CastKey<O>, u64)>)
    ensures
        r@.len() == entries@.len(),
        forall|j: int| 0 <= j < r@.len() ==> (#[trigger] r@[j]).0.key_spec() == entries@[j].0
            && r@[j].0.meta_spec() == entries@[j].1.tag() && r@[j].1 == handle_of(entries@[j].1),
{
    let mut pairs: Vec<(CastKey<O>, u64)> = Vec::new();
    let mut i: usize = 0;
    while i < entries.len()
        invariant
            0 <= i <= entries@.len(),
            pairs@.len() == i,
            forall|j: int| 0 <= j < i ==> (#[trigger] pairs@[j]).0.key_spec() == entries@[j].0
                && pairs@[j].0.meta_spec() == entries@[j].1.tag() && pairs@[j].1 == handle_of(entries@[j].1),
        decreases entries@.len() - i,
    {
        let (k, v) = entries[i];
        pairs.push((CastKey::from_raw_parts(k, v.concrete_type_id()), *v.inner_ref()));
        i += 1;
    }
    pairs
}

/// (key, stored value) pairs for listed slots.
fn value_pairs_of<O: ?Sized>(entries: &Vec<(InnerKey, TaggedHandle)>) -> (r: Vec<(CastKey<O>, TaggedHandle)>)
    ensures
        r@.len() == entries@.len(),
        forall|j: int| 0 <= j < r@.len() ==> (#[trigger] r@[j]).0.key_spec() == entries@[j].0
            && r@[j].0.meta_spec() == entries@[j].1.tag() && r@[j].1 == whole(entries@[j].1),
{
    let mut pairs: Vec<(CastKey<O>, TaggedHandle)> = Vec::new();
    let mut i: usize = 0;
    while i < entries.len()
        invariant
            0 <= i <= entries@.len(),
            pairs@.len() == i,
            forall|j: int| 0 <= j < i ==> (#[trigger] pairs@[j]).0.key_spec() == entries@[j].0
                && pairs@[j].0.meta_spec() == entries@[j].1.tag() && pairs@[j].1 == whole(entries@[j].1),
        decreases entries@.len() - i,
    {
        let (k, v) = entries[i];
        pairs.push((CastKey::from_raw_parts(k, v.concrete_type_id()), v));
        i += 1;
    }
    pairs
}

/// `handles` lists the outputs (handles) of the live slots of `slots`, each
/// slot once.
pub open spec fn lists_handles(handles: Seq<u64>, slots: Map<u64, TaggedHandle>) -> bool {
    exists|entries: Seq<(InnerKey, TaggedHandle)>| {
        &&& lists_slots(entries, slots)
        &&& handles == entries.map_values(|e: (InnerKey, TaggedHandle)| e.1.pointer())
    }
}

/// The outputs of listed slots, in order.
fn handles_of(entries: &Vec<(InnerKey, TaggedHandle)>) -> (r: Vec<u64>)
    ensures
        r@ == entries@.map_values(|e: (InnerKey, TaggedHandle)| e.1.pointer()),
{
    let mut handles: Vec<u64> = Vec::new();
    let mut i: usize = 0;
    while i < entries.len()
        invariant
            0 <= i <= entries@.len(),
            handles@ == entries@.subrange(0, i as int).map_values(|e: (InnerKey, TaggedHandle)| e.1.pointer()),
        decreases entries@.len() - i,
    {
        let (_k, v) = entries[i];
        handles.push(*v.inner_ref());
        proof {
            assert(entries@.subrange(0, i + 1) =~= entries@.subrange(0, i as int).push(entries@[i as int]));
        }
        i += 1;
        proof {
            assert(handles@ =~= entries@.subrange(0, i as int).map_values(|e: (InnerKey, TaggedHandle)| e.1.pointer()));
        }
    }
    proof {
        assert(entries@.subrange(0, i as int) =~= entries@);
    }
    handles
}

/// A `slotmap` wrapper, generic over the backing map `M`, that supports typed
/// lookups via [`CastKey`]. `O` is the map's erased output type (e.g.
/// `dyn Any`), the type parameter of the keys it issues for its values.
pub struct UnsafeCastMapG<M, O: ?Sized> {
    inner: M,
    output: PhantomData<O>,
}

impl<M: SlotMapTrait, O: ?Sized> UnsafeCastMapG<M, O> {
    /// The live slots: backing key to stored value.
    pub closed spec fn slots(self) -> Map<u64, TaggedHandle> {
        self.inner.live()
    }

    /// The detached keys.
    pub closed spec fn detached_keys(self) -> Set<u64> {
        self.inner.detached()
    }

    /// How many values the map holds without reallocating.
    pub closed spec fn capacity_spec(self) -> nat {
        self.inner.capacity_spec()
    }

    /// Whether making room for `additional` more values needs no allocation.
    pub closed spec fn reserve_fits(self, additional: nat) -> bool {
        self.inner.reserve_fits(additional)
    }

    /// The version of every slot of the backing map.
    pub closed spec fn slot_versions(self) -> Map<u32, u32> {
        self.inner.versions()
    }

    /// The live keys, in the order iteration visits them.
    pub closed spec fn slot_order(self) -> Seq<u64> {
        self.inner.order()
    }

    /// What holds of every map this module builds.
    pub closed spec fn wf(self) -> bool {
        backend_wf(self.inner)
    }

    /// What holds of every map: finite, within the slot limit, live and
    /// detached keys disjoint, no more values than the capacity.
    pub proof fn lemma_wf(self)
        requires
            self.wf(),
        ensures
            self.slots().dom().finite(),
            self.detached_keys().finite(),
            self.slots().dom().disjoint(self.detached_keys()),
            self.slots().len() + self.detached_keys().len() <= max_slots(),
            self.slots().len() <= self.capacity_spec(),
            versions_wf(self.slots(), self.detached_keys(), self.slot_versions()),
    {
    }

    /// Creates a new, empty map.
    pub fn new() -> (r: Self)
        ensures
            r.slot_versions() == no_versions(),
            r.wf(),
            r.slots() == no_live_slots(),
            r.detached_keys() == Set::<u64>::empty(),
    {
        UnsafeCastMapG { inner: M::empty(), output: PhantomData }
    }

    /// The backing map.
    pub closed spec fn backend(self) -> M {
        self.inner
    }

    /// Consumes this map, returning the backing map.
    pub fn inner(self) -> (r: M)
        ensures
            r == self.backend(),
    {
        self.inner
    }

    /// Shared access to the backing map.
    pub fn inner_ref(&self) -> (r: &M)
        ensures
            *r == self.backend(),
    {
        &self.inner
    }

    /// Mutable access to the backing map.
    pub fn inner_mut(&mut self) -> (r: &mut M)
        ensures
            *r == old(self).backend(),
            final(self).backend() == *final(r),
    {
        &mut self.inner
    }

    /// The map's state is its backing map's.
    pub proof fn lemma_backend(self)
        ensures
            self.slots() == self.backend().live(),
            self.detached_keys() == self.backend().detached(),
            self.capacity_spec() == self.backend().capacity_spec(),
            self.wf() == backend_wf(self.backend()),
            forall|additional: nat| #[trigger] self.reserve_fits(additional) == self.backend().reserve_fits(additional),
            self.slot_versions() == self.backend().versions(),
            self.slot_order() == self.backend().order(),
    {
    }

    /// Creates a new map with room for `capacity` values.
    pub fn with_capacity(capacity: usize) -> (r: Self)
        requires
            capacity <= reserve_limit(),
        ensures
            r.slot_versions() == no_versions(),
            r.wf(),
            r.slots() == no_live_slots(),
            r.detached_keys() == Set::<u64>::empty(),
            r.capacity_spec() >= capacity,
    {
        UnsafeCastMapG { inner: M::with_capacity(capacity), output: PhantomData }
    }

    /// Returns true if the map holds no value.
    pub fn is_empty(&self) -> (r: bool)
        requires
            self.wf(),
        ensures
            r == (self.slots().len() == 0),
    {
        self.inner.is_empty()
    }

    /// Returns the number of values held.
    pub fn len(&self) -> (r: usize)
        requires
            self.wf(),
        ensures
            r == self.slots().len(),
    {
        self.inner.len()
    }

    /// Returns how many values the map holds before reallocating.
    pub fn capacity(&self) -> (r: usize)
        ensures
            r == self.capacity_spec(),
    {
        self.inner.capacity()
    }

    /// Reserves room for at least `additional` more values.
    pub fn reserve(&mut self, additional: usize)
        requires
            old(self).wf(),
            old(self).capacity_spec() <= reserve_limit(),
            old(self).slots().len() + additional <= reserve_limit(),
        ensures
            final(self).slot_order() == old(self).slot_order(),
            final(self).slot_versions() == old(self).slot_versions(),
            final(self).wf(),
            final(self).slots() == old(self).slots(),
            final(self).detached_keys() == old(self).detached_keys(),
            final(self).capacity_spec() >= old(self).slots().len() + additional,
    {
        self.inner.reserve(additional)
    }

    /// Tries to reserve room for at least `additional` more values.
    pub fn try_reserve(&mut self, additional: usize) -> (r: Result<(), TryReserveError>)
        requires
            old(self).wf(),
            old(self).slots().len() + additional <= usize::MAX,
        ensures
            final(self).slot_order() == old(self).slot_order(),
            final(self).slot_versions() == old(self).slot_versions(),
            final(self).wf(),
            final(self).slots() == old(self).slots(),
            final(self).detached_keys() == old(self).detached_keys(),
            r is Ok ==> final(self).capacity_spec() >= old(self).slots().len() + additional,
            old(self).reserve_fits(additional as nat) ==> r is Ok
                && final(self).capacity_spec() == old(self).capacity_spec(),
    {
        self.inner.try_reserve(additional)
    }

    /// Removes every value. Outstanding keys stop resolving.
    pub fn clear(&mut self)
        requires
            old(self).wf(),
        ensures
            final(self).slot_versions() == retire(old(self).slot_versions(), old(self).slots().dom()),
            final(self).wf(),
            final(self).slots() == no_live_slots(),
            final(self).detached_keys() == old(self).detached_keys(),
            final(self).capacity_spec() == old(self).capacity_spec(),
    {
        self.inner.clear()
    }

    /// Whether the key's slot is live (its metadata is not consulted).
    pub fn contains_key<T: ?Sized>(&self, key: CastKey<T>) -> (r: bool)
        ensures
            r == self.slots().contains_key(key.key_spec()@),
    {
        self.inner.contains_key(key.inner_key())
    }

    /// The output (the stored handle) under a backing key.
    pub fn get_by_inner_key(&self, key: InnerKey) -> (r: Option<&u64>)
        ensures
            r == (if self.slots().contains_key(key@) { Some(&self.slots()[key@].pointer()) } else { None }),
    {
        match self.inner.get(key) {
            Some(stored) => Some(stored.inner_ref()),
            None => None,
        }
    }

    /// The stored value (handle and type id) under a backing key.
    pub(crate) fn stored_by_inner_key(&self, key: InnerKey) -> (r: Option<&TaggedHandle>)
        ensures
            r == (if self.slots().contains_key(key@) { Some(&self.slots()[key@]) } else { None }),
    {
        self.inner.get(key)
    }

    /// Mutable access to the output (the stored handle) under a backing key;
    /// the value's type id is kept.
    pub fn get_by_inner_key_mut(&mut self, key: InnerKey) -> (r: Option<&mut u64>)
        requires
            old(self).wf(),
        ensures
            final(self).slot_order() == old(self).slot_order(),
            final(self).slot_versions() == old(self).slot_versions(),
            final(self).wf(),
            final(self).detached_keys() == old(self).detached_keys(),
            final(self).capacity_spec() == old(self).capacity_spec(),
            r is Some == old(self).slots().contains_key(key@),
            r matches Some(v) ==> *v == old(self).slots()[key@].pointer()
                && final(self).slots() == old(self).slots().insert(key@, old(self).slots()[key@].with_pointer(*final(v))),
            r is None ==> final(self).slots() == old(self).slots(),
    {
        match self.inner.get_mut(key) {
            Some(stored) => Some(stored.inner_mut()),
            None => None,
        }
    }

    /// Mutable access to the outputs under several backing keys at once:
    /// `None` if a key is not live or two keys name the same slot.
    pub fn get_disjoint_mut_by_inner_key<const N: usize>(&mut self, keys: [InnerKey; N]) -> (r: Option<[&mut u64; N]>)
        requires
            old(self).wf(),
        ensures
            final(self).slot_order() == old(self).slot_order(),
            final(self).slot_versions() == old(self).slot_versions(),
            final(self).wf(),
            final(self).detached_keys() == old(self).detached_keys(),
            final(self).capacity_spec() == old(self).capacity_spec(),
            r is Some == live_and_disjoint(old(self).slots(), keys@),
            r matches Some(refs) ==> (forall|i: int| 0 <= i < N ==> *(#[trigger] refs[i]) == old(self).slots()[keys[i]@].pointer())
                && final(self).slots() == with_handles(old(self).slots(), keys@, Seq::new(N as nat, |i: int| *final(refs[i]))),
            r is None ==> final(self).slots() == old(self).slots(),
    {
        self.inner.get_disjoint_mut(keys)
    }

    /// Mutable access to the outputs under several backing keys known to be
    /// live and to name distinct slots.
    pub fn get_disjoint_unchecked_mut_by_inner_key<const N: usize>(&mut self, keys: [InnerKey; N]) -> (r: [&mut u64; N])
        requires
            old(self).wf(),
            live_and_disjoint(old(self).slots(), keys@),
        ensures
            final(self).slot_order() == old(self).slot_order(),
            final(self).slot_versions() == old(self).slot_versions(),
            final(self).wf(),
            final(self).detached_keys() == old(self).detached_keys(),
            final(self).capacity_spec() == old(self).capacity_spec(),
            forall|i: int| 0 <= i < N ==> *(#[trigger] r[i]) == old(self).slots()[keys[i]@].pointer(),
            final(self).slots() == with_handles(old(self).slots(), keys@, Seq::new(N as nat, |i: int| *final(r[i]))),
    {
        self.get_disjoint_mut_by_inner_key(keys).unwrap()
    }

    /// Removes a value by its backing key, returning the stored value.
    pub fn remove_by_inner_key(&mut self, key: InnerKey) -> (r: Option<TaggedHandle>)
        requires
            old(self).wf(),
        ensures
            !old(self).slots().contains_key(key@) ==> final(self).slot_order() == old(self).slot_order(),
            final(self).capacity_spec() == old(self).capacity_spec(),
            final(self).slot_versions() == (if old(self).slots().contains_key(key@) {
                old(self).slot_versions().insert(key_index(key@), bumped(key_version(key@)))
            } else {
                old(self).slot_versions()
            }),
            final(self).wf(),
            r == (if old(self).slots().contains_key(key@) { Some(old(self).slots()[key@]) } else { None }),
            final(self).slots() == old(self).slots().remove(key@),
            final(self).detached_keys() == old(self).detached_keys(),
    {
        self.inner.remove(key)
    }
}

impl<M: SlotMapTrait, O: ?Sized> UnsafeCastMapG<M, O> {
    /// Inserts the value `func` produces from the backing key it will live
    /// under; the returned key is typed `S` and its metadata is the stored
    /// value's type id. If `func` fails, nothing is inserted.
    fn try_insert_keyed<S: ?Sized, E, F>(&mut self, func: F) -> (r: Result<CastKey<S>, E>)
        where F: FnOnce(InnerKey) -> Result<TaggedHandle, E>,
        requires
            old(self).wf(),
            old(self).slots().len() + old(self).detached_keys().len() < max_slots(),
            forall|k: InnerKey| #[trigger] func.requires((k,)),
        ensures
            final(self).wf(),
            final(self).detached_keys() == old(self).detached_keys(),
            r matches Ok(key) ==> {
                &&& versions_after_issue(
                    old(self).slot_versions(),
                    final(self).slot_versions(),
                    key.key_spec()@,
                    old(self).slots().len() + old(self).detached_keys().len(),
                )
                &&& inserted_fresh(old(self).slots(), old(self).detached_keys(), final(self).slots(), key.key_spec()@)
                &&& func.ensures((key.key_spec(),), Ok::<TaggedHandle, E>(final(self).slots()[key.key_spec()@]))
                &&& key.meta_spec() == final(self).slots()[key.key_spec()@].tag()
            },
            r matches Err(e) ==> {
                &&& final(self).slot_order() == old(self).slot_order()
                &&& final(self).slot_versions() == old(self).slot_versions()
                &&& final(self).capacity_spec() == old(self).capacity_spec()
                &&& final(self).slots() == old(self).slots()
                &&& exists|k: InnerKey| func.ensures((k,), Err::<TaggedHandle, E>(e))
            },
    {
        match self.inner.try_insert_with_key(func) {
            Ok(inner_key) => {
                let stored = self.inner.get(inner_key).unwrap();
                let key = CastKey::from_raw_parts(inner_key, stored.concrete_type_id());
                Ok(key)
            },
            Err(e) => {
                let ghost k = choose|k: InnerKey| func.ensures((k,), Err::<TaggedHandle, E>(e));
                let res: Result<CastKey<S>, E> = Err(e);
                assert(func.ensures((k,), Err::<TaggedHandle, E>(res->Err_0)));
                res
            },
        }
    }

    /// Like [`insert_with_key`](Self::insert_with_key), but `func` may fail,
    /// in which case nothing is inserted and its error is returned.
    pub fn try_insert_with_key<E, F>(&mut self, func: F) -> (r: Result<CastKey<O>, E>)
        where F: FnOnce(InnerKey) -> Result<TaggedHandle, E>,
        requires
            old(self).wf(),
            old(self).slots().len() + old(self).detached_keys().len() < max_slots(),
            forall|k: InnerKey| #[trigger] func.requires((k,)),
        ensures
            final(self).wf(),
            final(self).detached_keys() == old(self).detached_keys(),
            r matches Ok(key) ==> {
                &&& versions_after_issue(
                    old(self).slot_versions(),
                    final(self).slot_versions(),
                    key.key_spec()@,
                    old(self).slots().len() + old(self).detached_keys().len(),
                )
                &&& inserted_fresh(old(self).slots(), old(self).detached_keys(), final(self).slots(), key.key_spec()@)
                &&& func.ensures((key.key_spec(),), Ok::<TaggedHandle, E>(final(self).slots()[key.key_spec()@]))
                &&& key.meta_spec() == final(self).slots()[key.key_spec()@].tag()
            },
            r matches Err(e) ==> {
                &&& final(self).slot_order() == old(self).slot_order()
                &&& final(self).slot_versions() == old(self).slot_versions()
                &&& final(self).capacity_spec() == old(self).capacity_spec()
                &&& final(self).slots() == old(self).slots()
                &&& exists|k: InnerKey| func.ensures((k,), Err::<TaggedHandle, E>(e))
            },
    {
        self.try_insert_keyed::<O, E, F>(func)
    }

    /// Inserts the value `func` produces from the backing key it will live
    /// under, returning the output-typed key.
    pub fn insert_with_key<F>(&mut self, func: F) -> (r: CastKey<O>)
        where F: FnOnce(InnerKey) -> TaggedHandle,
        requires
            old(self).wf(),
            old(self).slots().len() + old(self).detached_keys().len() < max_slots(),
            forall|k: InnerKey| #[trigger] func.requires((k,)),
        ensures
            versions_after_issue(
                old(self).slot_versions(),
                final(self).slot_versions(),
                r.key_spec()@,
                old(self).slots().len() + old(self).detached_keys().len(),
            ),
            final(self).wf(),
            final(self).detached_keys() == old(self).detached_keys(),
            inserted_fresh(old(self).slots(), old(self).detached_keys(), final(self).slots(), r.key_spec()@),
            func.ensures((r.key_spec(),), final(self).slots()[r.key_spec()@]),
            r.meta_spec() == final(self).slots()[r.key_spec()@].tag(),
    {
        let wrapped = move |key: InnerKey| -> (res: Result<TaggedHandle, ()>)
            requires
                func.requires((key,)),
            ensures
                res matches Ok(v) && func.ensures((key,), v),
        {
            Ok(func(key))
        };
        match self.try_insert_keyed::<O, (), _>(wrapped) {
            Ok(key) => key,
            Err(e) => {
                proof {
                    let k = choose|k: InnerKey| wrapped.ensures((k,), Err::<TaggedHandle, ()>(e));
                    assert(wrapped.ensures((k,), Err::<TaggedHandle, ()>(e)));
                }
                // The closure never fails.
                Err::<CastKey<O>, ()>(e).unwrap()
            },
        }
    }

    /// Inserts a value, returning the output-typed key; its metadata is the
    /// value's type id.
    pub fn insert(&mut self, value: TaggedHandle) -> (r: CastKey<O>)
        requires
            old(self).wf(),
            old(self).slots().len() + old(self).detached_keys().len() < max_slots(),
        ensures
            versions_after_issue(
                old(self).slot_versions(),
                final(self).slot_versions(),
                r.key_spec()@,
                old(self).slots().len() + old(self).detached_keys().len(),
            ),
            final(self).wf(),
            final(self).detached_keys() == old(self).detached_keys(),
            inserted_fresh(old(self).slots(), old(self).detached_keys(), final(self).slots(), r.key_spec()@),
            final(self).slots()[r.key_spec()@] == value,
            r.meta_spec() == value.tag(),
    {
        self.insert_with_key(move |_key: InnerKey| -> (v: TaggedHandle)
            ensures
                v == value,
        {
            value
        })
    }
}

impl<M: SlotMapTrait, O: ?Sized> UnsafeCastMapG<M, O> {
    /// Like [`insert_sized_with_key`](Self::insert_sized_with_key), but
    /// `func` may fail, in which case nothing is inserted and its error is
    /// returned.
    pub fn try_insert_sized_with_key<T: 'static, E, F>(&mut self, func: F) -> (r: Result<CastKey<T>, E>)
        where F: FnOnce(CastKey<T>) -> Result<TaggedHandle, E>,
        requires
            old(self).wf(),
            old(self).slots().len() + old(self).detached_keys().len() < max_slots(),
            forall|k: CastKey<T>| #[trigger] func.requires((k,)),
        ensures
            final(self).wf(),
            final(self).detached_keys() == old(self).detached_keys(),
            r matches Ok(key) ==> {
                &&& versions_after_issue(
                    old(self).slot_versions(),
                    final(self).slot_versions(),
                    key.key_spec()@,
                    old(self).slots().len() + old(self).detached_keys().len(),
                )
                &&& inserted_fresh(old(self).slots(), old(self).detached_keys(), final(self).slots(), key.key_spec()@)
                &&& func.ensures((key,), Ok::<TaggedHandle, E>(final(self).slots()[key.key_spec()@]))
                &&& key.meta_spec() == type_id_spec::<T>()
            },
            r matches Err(e) ==> {
                &&& final(self).slot_order() == old(self).slot_order()
                &&& final(self).slot_versions() == old(self).slot_versions()
                &&& final(self).capacity_spec() == old(self).capacity_spec()
                &&& final(self).slots() == old(self).slots()
                &&& exists|k: CastKey<T>| func.ensures((k,), Err::<TaggedHandle, E>(e))
                &&& exists|k: CastKey<T>|
                    k.meta_spec() == type_id_spec::<T>() && #[trigger] func.ensures((k,), Err::<TaggedHandle, E>(e))
            },
    {
        // `T` is sized: the metadata a key for it carries describes `T` itself.
        self.try_insert_sized_with_key_with_id::<T, E, F>(func, type_id_of::<T>())
    }

    /// [`try_insert_sized_with_key`](Self::try_insert_sized_with_key) with the
    /// metadata of `T` given: every key made carries `metadata`, the type id
    /// of `T`.
    pub fn try_insert_sized_with_key_with_id<T: 'static, E, F>(
        &mut self,
        func: F,
        metadata: TypeId,
    ) -> (r: Result<CastKey<T>, E>)
        where F: FnOnce(CastKey<T>) -> Result<TaggedHandle, E>,
        requires
            old(self).wf(),
            old(self).slots().len() + old(self).detached_keys().len() < max_slots(),
            forall|k: CastKey<T>| #[trigger] func.requires((k,)),
        ensures
            final(self).wf(),
            final(self).detached_keys() == old(self).detached_keys(),
            r matches Ok(key) ==> {
                &&& versions_after_issue(
                    old(self).slot_versions(),
                    final(self).slot_versions(),
                    key.key_spec()@,
                    old(self).slots().len() + old(self).detached_keys().len(),
                )
                &&& inserted_fresh(old(self).slots(), old(self).detached_keys(), final(self).slots(), key.key_spec()@)
                &&& func.ensures((key,), Ok::<TaggedHandle, E>(final(self).slots()[key.key_spec()@]))
                &&& key.meta_spec() == metadata
            },
            r matches Err(e) ==> {
                &&& final(self).slot_order() == old(self).slot_order()
                &&& final(self).slot_versions() == old(self).slot_versions()
                &&& final(self).capacity_spec() == old(self).capacity_spec()
                &&& final(self).slots() == old(self).slots()
                &&& exists|k: CastKey<T>| k.meta_spec() == metadata && func.ensures((k,), Err::<TaggedHandle, E>(e))
            },
    {
        let typed = move |inner_key: InnerKey| -> (res: Result<TaggedHandle, E>)
            requires
                func.requires((CastKey::<T>::assemble(inner_key, metadata),)),
            ensures
                func.ensures((CastKey::<T>::assemble(inner_key, metadata),), res),
        {
            func(CastKey::from_raw_parts(inner_key, metadata))
        };
        match self.inner.try_insert_with_key(typed) {
            Ok(inner_key) => Ok(CastKey::from_raw_parts(inner_key, metadata)),
            Err(e) => {
                let ghost k = choose|k: InnerKey| typed.ensures((k,), Err::<TaggedHandle, E>(e));
                let res: Result<CastKey<T>, E> = Err(e);
                assert(func.ensures((CastKey::<T>::assemble(k, metadata),), Err::<TaggedHandle, E>(res->Err_0)));
                proof {
                    CastKey::<T>::lemma_assemble(k, metadata);
                }
                res
            },
        }
    }
}

impl<M: SlotMapTrait, O: ?Sized> UnsafeCastMapG<M, O> {
    /// Inserts the value `func` produces from the typed key it will live
    /// under, returning that key.
    pub fn insert_sized_with_key<T: 'static, F>(&mut self, func: F) -> (r: CastKey<T>)
        where F: FnOnce(CastKey<T>) -> TaggedHandle,
        requires
            old(self).wf(),
            old(self).slots().len() + old(self).detached_keys().len() < max_slots(),
            forall|k: CastKey<T>| #[trigger] func.requires((k,)),
        ensures
            versions_after_issue(
                old(self).slot_versions(),
                final(self).slot_versions(),
                r.key_spec()@,
                old(self).slots().len() + old(self).detached_keys().len(),
            ),
            final(self).wf(),
            final(self).detached_keys() == old(self).detached_keys(),
            inserted_fresh(old(self).slots(), old(self).detached_keys(), final(self).slots(), r.key_spec()@),
            func.ensures((r,), final(self).slots()[r.key_spec()@]),
            r.meta_spec() == type_id_spec::<T>(),
    {
        let wrapped = move |key: CastKey<T>| -> (res: Result<TaggedHandle, ()>)
            requires
                func.requires((key,)),
            ensures
                res matches Ok(v) && func.ensures((key,), v),
        {
            Ok(func(key))
        };
        match self.try_insert_sized_with_key::<T, (), _>(wrapped) {
            Ok(key) => key,
            Err(e) => {
                proof {
                    let k = choose|k: CastKey<T>| wrapped.ensures((k,), Err::<TaggedHandle, ()>(e));
                    assert(wrapped.ensures((k,), Err::<TaggedHandle, ()>(e)));
                }
                Err::<CastKey<T>, ()>(e).unwrap()
            },
        }
    }

    /// Inserts a value of the concrete type `T`, returning a key typed `T`
    /// (whose metadata describes `T`, the value's type) rather than the
    /// output type.
    ///
    /// The key's metadata is read from the value's tag (the type id of `T`
    /// for a value of `T`). The `_with_key` forms make the key before the
    /// value exists and take the metadata from `T`, so the two agree exactly
    /// when the value's tag is the type id of `T`.
    pub fn insert_sized<T: 'static>(&mut self, value: TaggedHandle) -> (r: CastKey<T>)
        requires
            old(self).wf(),
            old(self).slots().len() + old(self).detached_keys().len() < max_slots(),
        ensures
            versions_after_issue(
                old(self).slot_versions(),
                final(self).slot_versions(),
                r.key_spec()@,
                old(self).slots().len() + old(self).detached_keys().len(),
            ),
            final(self).wf(),
            final(self).detached_keys() == old(self).detached_keys(),
            inserted_fresh(old(self).slots(), old(self).detached_keys(), final(self).slots(), r.key_spec()@),
            final(self).slots()[r.key_spec()@] == value,
            r.meta_spec() == value.tag(),
    {
        // The value is a `T`, so the metadata describing `T` is its type id.
        self.insert_as::<T>(value)
    }

    /// Like [`insert_as_with_key`](Self::insert_as_with_key), but `func` may
    /// fail, in which case nothing is inserted and its error is returned.
    pub fn try_insert_as_with_key<S: ?Sized, E, F>(&mut self, func: F) -> (r: Result<CastKey<S>, E>)
        where F: FnOnce(InnerKey) -> Result<TaggedHandle, E>,
        requires
            old(self).wf(),
            old(self).slots().len() + old(self).detached_keys().len() < max_slots(),
            forall|k: InnerKey| #[trigger] func.requires((k,)),
        ensures
            final(self).wf(),
            final(self).detached_keys() == old(self).detached_keys(),
            r matches Ok(key) ==> {
                &&& versions_after_issue(
                    old(self).slot_versions(),
                    final(self).slot_versions(),
                    key.key_spec()@,
                    old(self).slots().len() + old(self).detached_keys().len(),
                )
                &&& inserted_fresh(old(self).slots(), old(self).detached_keys(), final(self).slots(), key.key_spec()@)
                &&& func.ensures((key.key_spec(),), Ok::<TaggedHandle, E>(final(self).slots()[key.key_spec()@]))
                &&& key.meta_spec() == final(self).slots()[key.key_spec()@].tag()
            },
            r matches Err(e) ==> {
                &&& final(self).slot_order() == old(self).slot_order()
                &&& final(self).slot_versions() == old(self).slot_versions()
                &&& final(self).capacity_spec() == old(self).capacity_spec()
                &&& final(self).slots() == old(self).slots()
                &&& exists|k: InnerKey| func.ensures((k,), Err::<TaggedHandle, E>(e))
            },
    {
        self.try_insert_keyed::<S, E, F>(func)
    }

    /// Inserts the value `func` produces from the backing key it will live
    /// under, returning a key typed with the source type `S` (metadata read
    /// from the value, so it describes the value's concrete type).
    pub fn insert_as_with_key<S: ?Sized, F>(&mut self, func: F) -> (r: CastKey<S>)
        where F: FnOnce(InnerKey) -> TaggedHandle,
        requires
            old(self).wf(),
            old(self).slots().len() + old(self).detached_keys().len() < max_slots(),
            forall|k: InnerKey| #[trigger] func.requires((k,)),
        ensures
            versions_after_issue(
                old(self).slot_versions(),
                final(self).slot_versions(),
                r.key_spec()@,
                old(self).slots().len() + old(self).detached_keys().len(),
            ),
            final(self).wf(),
            final(self).detached_keys() == old(self).detached_keys(),
            inserted_fresh(old(self).slots(), old(self).detached_keys(), final(self).slots(), r.key_spec()@),
            func.ensures((r.key_spec(),), final(self).slots()[r.key_spec()@]),
            r.meta_spec() == final(self).slots()[r.key_spec()@].tag(),
    {
        let wrapped = move |key: InnerKey| -> (res: Result<TaggedHandle, ()>)
            requires
                func.requires((key,)),
            ensures
                res matches Ok(v) && func.ensures((key,), v),
        {
            Ok(func(key))
        };
        match self.try_insert_keyed::<S, (), _>(wrapped) {
            Ok(key) => key,
            Err(e) => {
                proof {
                    let k = choose|k: InnerKey| wrapped.ensures((k,), Err::<TaggedHandle, ()>(e));
                    assert(wrapped.ensures((k,), Err::<TaggedHandle, ()>(e)));
                }
                Err::<CastKey<S>, ()>(e).unwrap()
            },
        }
    }

    /// Inserts a value, returning a key typed with the source type `S`
    /// whose metadata describes the value's concrete type.
    pub fn insert_as<S: ?Sized>(&mut self, value: TaggedHandle) -> (r: CastKey<S>)
        requires
            old(self).wf(),
            old(self).slots().len() + old(self).detached_keys().len() < max_slots(),
        ensures
            versions_after_issue(
                old(self).slot_versions(),
                final(self).slot_versions(),
                r.key_spec()@,
                old(self).slots().len() + old(self).detached_keys().len(),
            ),
            final(self).wf(),
            final(self).detached_keys() == old(self).detached_keys(),
            inserted_fresh(old(self).slots(), old(self).detached_keys(), final(self).slots(), r.key_spec()@),
            final(self).slots()[r.key_spec()@] == value,
            r.meta_spec() == value.tag(),
    {
        self.insert_as_with_key(move |_key: InnerKey| -> (v: TaggedHandle)
            ensures
                v == value,
        {
            value
        })
    }

    /// The output-typed key for a backing key, its metadata read from the
    /// stored value; `None` if the key is not live.
    pub fn cast_key_of(&self, key: InnerKey) -> (r: Option<CastKey<O>>)
        ensures
            r is Some == self.slots().contains_key(key@),
            r matches Some(k) ==> k.key_spec() == key && k.meta_spec() == self.slots()[key@].tag(),
    {
        match self.inner.get(key) {
            Some(stored) => Some(CastKey::from_raw_parts(key, stored.concrete_type_id())),
            None => None,
        }
    }

    /// Re-types an output-typed key to the concrete type whose type id is
    /// `concrete`, trusting the key's metadata to describe the value in its
    /// slot: `Some` exactly when the slot is live and that metadata describes
    /// `concrete`.
    pub fn downcast_key_with_id<C: 'static>(&self, key: CastKey<O>, concrete: TypeId) -> (r: Option<CastKey<C>>)
        requires
            meta_fits(self.slots(), key),
        ensures
            r == (if self.slots().contains_key(key.key_spec()@) && key.meta_spec() == concrete {
                Some(CastKey::<C>::assemble(key.key_spec(), concrete))
            } else {
                None
            }),
    {
        if !self.inner.contains_key(key.inner_key()) {
            return None;
        }
        let key_type = key.metadata();
        if type_ids_equal(&key_type, &concrete) {
            Some(CastKey::from_raw_parts(key.inner_key(), concrete))
        } else {
            None
        }
    }

    /// Re-types an output-typed key to the concrete type `C` when the key's
    /// metadata describes `C`, trusting it to describe the value in its
    /// slot. `None` if the slot is not live or holds another type.
    pub fn downcast_key<C: 'static>(&self, key: CastKey<O>) -> (r: Option<CastKey<C>>)
        requires
            meta_fits(self.slots(), key),
        ensures
            r is Some == (self.slots().contains_key(key.key_spec()@) && key.meta_spec() == type_id_spec::<C>()),
            !self.slots().contains_key(key.key_spec()@) ==> r is None,
            r matches Some(k) ==> k == CastKey::<C>::assemble(key.key_spec(), key.meta_spec()),
    {
        self.downcast_key_with_id::<C>(key, type_id_of::<C>())
    }

    /// The output (stored handle) under a key, trusting the key's metadata.
    pub fn get<T: ?Sized>(&self, key: CastKey<T>) -> (r: Option<&u64>)
        requires
            meta_fits(self.slots(), key),
        ensures
            r == (if self.slots().contains_key(key.key_spec()@) {
                Some(&self.slots()[key.key_spec()@].pointer())
            } else {
                None
            }),
    {
        self.get_by_inner_key(key.inner_key())
    }

    /// The output under a key that is known to be live, trusting the key's
    /// metadata.
    pub fn get_unchecked<T: ?Sized>(&self, key: CastKey<T>) -> (r: &u64)
        requires
            self.slots().contains_key(key.key_spec()@),
            meta_fits(self.slots(), key),
        ensures
            *r == self.slots()[key.key_spec()@].pointer(),
    {
        self.get_by_inner_key(key.inner_key()).unwrap()
    }

    /// Mutable access to the output under a key, trusting the key's
    /// metadata; the value's type id is kept.
    pub fn get_mut<T: ?Sized>(&mut self, key: CastKey<T>) -> (r: Option<&mut u64>)
        requires
            old(self).wf(),
            meta_fits(old(self).slots(), key),
        ensures
            final(self).slot_order() == old(self).slot_order(),
            final(self).slot_versions() == old(self).slot_versions(),
            final(self).wf(),
            final(self).detached_keys() == old(self).detached_keys(),
            final(self).capacity_spec() == old(self).capacity_spec(),
            r is Some == old(self).slots().contains_key(key.key_spec()@),
            r matches Some(v) ==> *v == old(self).slots()[key.key_spec()@].pointer()
                && final(self).slots() == old(self).slots().insert(
                    key.key_spec()@,
                    old(self).slots()[key.key_spec()@].with_pointer(*final(v)),
                ),
            r is None ==> final(self).slots() == old(self).slots(),
    {
        self.get_by_inner_key_mut(key.inner_key())
    }

    /// Mutable access to the output under a key that is known to be live,
    /// trusting the key's metadata.
    pub fn get_unchecked_mut<T: ?Sized>(&mut self, key: CastKey<T>) -> (r: &mut u64)
        requires
            old(self).wf(),
            old(self).slots().contains_key(key.key_spec()@),
            meta_fits(old(self).slots(), key),
        ensures
            final(self).slot_order() == old(self).slot_order(),
            final(self).slot_versions() == old(self).slot_versions(),
            final(self).wf(),
            final(self).detached_keys() == old(self).detached_keys(),
            final(self).capacity_spec() == old(self).capacity_spec(),
            *r == old(self).slots()[key.key_spec()@].pointer(),
            final(self).slots() == old(self).slots().insert(
                key.key_spec()@,
                old(self).slots()[key.key_spec()@].with_pointer(*final(r)),
            ),
    {
        self.get_by_inner_key_mut(key.inner_key()).unwrap()
    }

    /// Mutable access to the outputs under several keys at once, trusting
    /// each key's metadata: `None` if a key is not live or two keys name the
    /// same slot.
    pub fn get_disjoint_mut<T: ?Sized, const N: usize>(&mut self, keys: [CastKey<T>; N]) -> (r: Option<[&mut u64; N]>)
        requires
            old(self).wf(),
            forall|i: int| 0 <= i < N ==> meta_fits(old(self).slots(), #[trigger] keys[i]),
        ensures
            final(self).slot_order() == old(self).slot_order(),
            final(self).slot_versions() == old(self).slot_versions(),
            final(self).wf(),
            final(self).detached_keys() == old(self).detached_keys(),
            final(self).capacity_spec() == old(self).capacity_spec(),
            r is Some == live_and_disjoint(old(self).slots(), keys@),
            r matches Some(refs) ==> (forall|i: int| 0 <= i < N ==> *(#[trigger] refs[i]) == old(self).slots()[keys[i].key_spec()@].pointer())
                && final(self).slots() == with_handles(old(self).slots(), keys@, Seq::new(N as nat, |i: int| *final(refs[i]))),
            r is None ==> final(self).slots() == old(self).slots(),
    {
        self.inner.get_disjoint_mut(keys)
    }

    /// Mutable access to the outputs under several keys known to be live, to
    /// name distinct slots and to describe their slots' types.
    pub fn get_disjoint_unchecked_mut<T: ?Sized, const N: usize>(&mut self, keys: [CastKey<T>; N]) -> (r: [&mut u64; N])
        requires
            old(self).wf(),
            live_and_disjoint(old(self).slots(), keys@),
            forall|i: int| 0 <= i < N ==> meta_fits(old(self).slots(), #[trigger] keys[i]),
        ensures
            final(self).slot_order() == old(self).slot_order(),
            final(self).slot_versions() == old(self).slot_versions(),
            final(self).wf(),
            final(self).detached_keys() == old(self).detached_keys(),
            final(self).capacity_spec() == old(self).capacity_spec(),
            forall|i: int| 0 <= i < N ==> *(#[trigger] r[i]) == old(self).slots()[keys[i].key_spec()@].pointer(),
            final(self).slots() == with_handles(old(self).slots(), keys@, Seq::new(N as nat, |i: int| *final(r[i]))),
    {
        self.get_disjoint_mut(keys).unwrap()
    }

    /// Removes the value under a key, returning it re-typed to the key's
    /// type (the stored value itself), trusting the key's metadata.
    pub fn remove<T: ?Sized>(&mut self, key: CastKey<T>) -> (r: Option<TaggedHandle>)
        requires
            old(self).wf(),
            meta_fits(old(self).slots(), key),
        ensures
            !old(self).slots().contains_key(key.key_spec()@) ==> final(self).slot_order() == old(self).slot_order(),
            final(self).capacity_spec() == old(self).capacity_spec(),
            final(self).slot_versions() == (if old(self).slots().contains_key(key.key_spec()@) {
                old(self).slot_versions().insert(key_index(key.key_spec()@), bumped(key_version(key.key_spec()@)))
            } else {
                old(self).slot_versions()
            }),
            final(self).wf(),
            r == (if old(self).slots().contains_key(key.key_spec()@) {
                Some(old(self).slots()[key.key_spec()@])
            } else {
                None
            }),
            final(self).slots() == old(self).slots().remove(key.key_spec()@),
            final(self).detached_keys() == old(self).detached_keys(),
    {
        self.inner.remove(key.inner_key())
    }
}

impl<M: SlotMapTrait, O: ?Sized> UnsafeCastMapG<M, O> {
    /// Removes a value by its backing key but keeps the key reserved, so it
    /// can be reused with [`reattach_by_inner_key`](Self::reattach_by_inner_key).
    pub fn detach_by_inner_key(&mut self, key: InnerKey) -> (r: Option<TaggedHandle>)
        requires
            old(self).wf(),
        ensures
            !old(self).slots().contains_key(key@) ==> final(self).slot_order() == old(self).slot_order(),
            final(self).capacity_spec() == old(self).capacity_spec(),
            final(self).slot_versions() == (if old(self).slots().contains_key(key@) {
                old(self).slot_versions().insert(key_index(key@), bumped(key_version(key@)))
            } else {
                old(self).slot_versions()
            }),
            final(self).wf(),
            r == (if old(self).slots().contains_key(key@) { Some(old(self).slots()[key@]) } else { None }),
            final(self).slots() == old(self).slots().remove(key@),
            final(self).detached_keys() == (if old(self).slots().contains_key(key@) {
                old(self).detached_keys().insert(key@)
            } else {
                old(self).detached_keys()
            }),
    {
        self.inner.detach(key)
    }

    /// Puts a value back under a detached backing key, which becomes live.
    /// The key must be detached (`slotmap` panics otherwise).
    pub fn reattach_by_inner_key(&mut self, key: InnerKey, value: TaggedHandle)
        requires
            old(self).wf(),
            old(self).detached_keys().contains(key@),
        ensures
            final(self).slot_versions() == old(self).slot_versions().insert(key_index(key@), key_version(key@)),
            final(self).wf(),
            final(self).slots() == old(self).slots().insert(key@, value),
            final(self).detached_keys() == old(self).detached_keys().remove(key@),
    {
        self.inner.reattach(key, value)
    }

    /// Removes the value under a key, returning it re-typed to the key's
    /// type, but keeps the key reserved for [`reattach`](Self::reattach);
    /// trusts the key's metadata.
    pub fn detach<T: ?Sized>(&mut self, key: CastKey<T>) -> (r: Option<TaggedHandle>)
        requires
            old(self).wf(),
            meta_fits(old(self).slots(), key),
        ensures
            !old(self).slots().contains_key(key.key_spec()@) ==> final(self).slot_order() == old(self).slot_order(),
            final(self).capacity_spec() == old(self).capacity_spec(),
            final(self).slot_versions() == (if old(self).slots().contains_key(key.key_spec()@) {
                old(self).slot_versions().insert(key_index(key.key_spec()@), bumped(key_version(key.key_spec()@)))
            } else {
                old(self).slot_versions()
            }),
            final(self).wf(),
            r == (if old(self).slots().contains_key(key.key_spec()@) {
                Some(old(self).slots()[key.key_spec()@])
            } else {
                None
            }),
            final(self).slots() == old(self).slots().remove(key.key_spec()@),
            final(self).detached_keys() == (if old(self).slots().contains_key(key.key_spec()@) {
                old(self).detached_keys().insert(key.key_spec()@)
            } else {
                old(self).detached_keys()
            }),
    {
        self.inner.detach(key.inner_key())
    }

    /// Puts a value of the key's concrete type `T` back under a detached
    /// typed key.
    pub fn reattach_sized<T: 'static>(&mut self, key: CastKey<T>, value: TaggedHandle)
        requires
            old(self).wf(),
            old(self).detached_keys().contains(key.key_spec()@),
        ensures
            final(self).slot_versions() == old(self).slot_versions().insert(key_index(key.key_spec()@), key_version(key.key_spec()@)),
            final(self).wf(),
            final(self).slots() == old(self).slots().insert(key.key_spec()@, value),
            final(self).detached_keys() == old(self).detached_keys().remove(key.key_spec()@),
    {
        self.inner.reattach(key.inner_key(), value)
    }

    /// Puts a value back under a detached output-typed key.
    pub fn reattach(&mut self, key: CastKey<O>, value: TaggedHandle)
        requires
            old(self).wf(),
            old(self).detached_keys().contains(key.key_spec()@),
        ensures
            final(self).slot_versions() == old(self).slot_versions().insert(key_index(key.key_spec()@), key_version(key.key_spec()@)),
            final(self).wf(),
            final(self).slots() == old(self).slots().insert(key.key_spec()@, value),
            final(self).detached_keys() == old(self).detached_keys().remove(key.key_spec()@),
    {
        self.inner.reattach(key.inner_key(), value)
    }
}

impl<M: SlotMapTrait, O: ?Sized> UnsafeCastMapG<M, O> {
    /// The output-typed keys of all live slots, each once; each key's
    /// metadata is its stored value's type id.
    pub fn keys(&self) -> (r: Vec<CastKey<O>>)
        requires
            self.wf(),
        ensures
            key_bits(r@) == self.slot_order(),
            lists_keys(r@, self.slots()),
    {
        let entries = self.inner.entries();
        let keys = keys_of::<O>(&entries);
        proof {
            lemma_keys_from_entries(entries@, keys@, self.slots());
        }
        keys
    }

    /// The outputs of all live slots, each slot once.
    pub fn values(&self) -> (r: Vec<u64>)
        requires
            self.wf(),
        ensures
            lists_handles(r@, self.slots()),
    {
        let entries = self.inner.entries();
        let handles = handles_of(&entries);
        assert(lists_slots(entries@, self.slots()));
        handles
    }

    /// Every live slot once, as its output-typed key and a mutable reference
    /// to its output; type ids are kept.
    pub fn iter_mut(&mut self) -> (r: Vec<(CastKey<O>, &mut u64)>)
        requires
            old(self).wf(),
        ensures
            final(self).slot_order() == old(self).slot_order(),
            key_bits(keys_of_refs(r@)) == old(self).slot_order(),
            final(self).slot_versions() == old(self).slot_versions(),
            final(self).wf(),
            final(self).detached_keys() == old(self).detached_keys(),
            final(self).capacity_spec() == old(self).capacity_spec(),
            lists_handle_refs(r@, old(self).slots()),
            final(self).slots() == with_handles(old(self).slots(), keys_of_refs(r@), Seq::new(r@.len(), |i: int| *final(r@[i].1))),
    {
        self.inner.iter_mut()
    }

    /// A mutable reference to the output of every live slot, each once; type
    /// ids are kept.
    pub fn values_mut(&mut self) -> (r: Vec<&mut u64>)
        requires
            old(self).wf(),
        ensures
            final(self).slot_order() == old(self).slot_order(),
            final(self).slot_versions() == old(self).slot_versions(),
            final(self).wf(),
            final(self).detached_keys() == old(self).detached_keys(),
            final(self).capacity_spec() == old(self).capacity_spec(),
            value_refs_written(r@, old(self).slots(), final(self).slots(), Seq::new(r@.len(), |i: int| *final(r@[i]))),
    {
        self.inner.values_mut()
    }

    /// Keeps the values for which `f(key, output)` returns `true`, calling it
    /// once on each value with its output-typed key.
    pub fn retain<F>(&mut self, f: F)
        where F: Fn(CastKey<O>, u64) -> bool,
        requires
            old(self).wf(),
            forall|k: CastKey<O>, v: u64| #[trigger] f.requires((k, v)),
        ensures
            final(self).slot_versions() == retire(
                old(self).slot_versions(),
                old(self).slots().dom().difference(final(self).slots().dom()),
            ),
            final(self).wf(),
            final(self).detached_keys() == old(self).detached_keys(),
            final(self).slots().submap_of(old(self).slots()),
            forall|k: InnerKey| #[trigger] old(self).slots().contains_key(k@) ==> f.ensures(
                (CastKey::<O>::assemble(k, old(self).slots()[k@].tag()), old(self).slots()[k@].pointer()),
                final(self).slots().contains_key(k@),
            ),
    {
        let f_ref = &f;
        let keep = move |k: InnerKey, v: TaggedHandle| -> (r: bool)
            requires
                f_ref.requires((CastKey::<O>::assemble(k, v.tag()), v.pointer())),
            ensures
                f_ref.ensures((CastKey::<O>::assemble(k, v.tag()), v.pointer()), r),
        {
            f_ref(CastKey::from_raw_parts(k, v.concrete_type_id()), *v.inner_ref())
        };
        self.inner.retain(keep);
    }

    /// All live slots as (output-typed key, output) pairs, each once.
    pub fn iter(&self) -> (r: Vec<(CastKey<O>, u64)>)
        requires
            self.wf(),
        ensures
            r@.map_values(|p: (CastKey<O>, u64)| p.0.key_spec()@) == self.slot_order(),
            lists_pairs(r@, self.slots(), |v: TaggedHandle| handle_of(v)),
    {
        let entries = self.inner.entries();
        let pairs = handle_pairs_of::<O>(&entries);
        proof {
            lemma_pairs_from_entries(entries@, pairs@, self.slots(), |v: TaggedHandle| handle_of(v));
        }
        pairs
    }

    /// Empties the map, returning every (output-typed key, stored value)
    /// pair it held, each once.
    pub fn drain(&mut self) -> (r: Vec<(CastKey<O>, TaggedHandle)>)
        requires
            old(self).wf(),
        ensures
            final(self).slot_versions() == retire(old(self).slot_versions(), old(self).slots().dom()),
            final(self).wf(),
            lists_pairs(r@, old(self).slots(), |v: TaggedHandle| whole(v)),
            final(self).slots() == no_live_slots(),
            final(self).detached_keys() == old(self).detached_keys(),
    {
        let entries = self.inner.drain();
        let pairs = value_pairs_of::<O>(&entries);
        proof {
            lemma_pairs_from_entries(entries@, pairs@, old(self).slots(), |v: TaggedHandle| whole(v));
        }
        pairs
    }

    /// Consumes the map into every (output-typed key, stored value) pair it
    /// held, each once.
    pub fn into_pairs(self) -> (r: Vec<(CastKey<O>, TaggedHandle)>)
        requires
            self.wf(),
        ensures
            lists_pairs(r@, self.slots(), |v: TaggedHandle| whole(v)),
    {
        let ghost slots = self.slots();
        let entries = self.inner.into_pairs();
        let pairs = value_pairs_of::<O>(&entries);
        proof {
            lemma_pairs_from_entries(entries@, pairs@, slots, |v: TaggedHandle| whole(v));
        }
        pairs
    }
}

impl<M: SlotMapTrait, O: ?Sized> Clone for UnsafeCastMapG<M, O> {
    /// A copy holding the same values under the same keys, so keys issued by
    /// this map resolve on the copy alike.
    fn clone(&self) -> (r: Self)
        ensures
            r.slot_order() == self.slot_order(),
            r.slot_versions() == self.slot_versions(),
            r.wf(),
            r.slots() == self.slots(),
            r.detached_keys() == self.detached_keys(),
    {
        UnsafeCastMapG { inner: self.inner.duplicate(), output: PhantomData }
    }
}

impl<M: SlotMapTrait, O: ?Sized> Default for UnsafeCastMapG<M, O> {
    /// An empty map.
    fn default() -> (r: Self)
        ensures
            r.slot_versions() == no_versions(),
            r.wf(),
            r.slots() == no_live_slots(),
            r.detached_keys() == Set::<u64>::empty(),
    {
        Self::new()
    }
}

/// Detaching a live value and reattaching it under the same key restores
/// the map: the same live slots and the same detached keys.
pub proof fn law_detach_then_reattach_restores(slots: Map<u64, TaggedHandle>, detached: Set<u64>, key: u64)
    requires
        slots.contains_key(key),
        slots.dom().disjoint(detached),
    ensures
        slots.remove(key).insert(key, slots[key]) == slots,
        detached.insert(key).remove(key) == detached,
{
    assert(slots.remove(key).insert(key, slots[key]) =~= slots);
    assert(detached.insert(key).remove(key) =~= detached);
}

/// Each insertion adds exactly one live value; each removal of a live key
/// takes exactly one away.
pub proof fn law_len_counts_values(
    before: Map<u64, TaggedHandle>,
    detached: Set<u64>,
    after: Map<u64, TaggedHandle>,
    key: u64,
)
    requires
        before.dom().finite(),
        inserted_fresh(before, detached, after, key),
    ensures
        after.len() == before.len() + 1,
        after.remove(key) == before,
{
    assert(after.remove(key) =~= before);
}

/// A key made for a sized type `T` (by `insert_sized_with_key` or
/// `try_insert_sized_with_key`, and the key handed to their closure)
/// describes `T` itself: its metadata is `TypeId::of::<T>()`. So when the
/// closure's value is tagged with that type id, as `TypeTaggedBox::new` tags
/// a `T`, the returned key fits its slot and a lookup by it finds the value.
pub proof fn law_sized_key_describes_its_type<M: SlotMapTrait, O: ?Sized, T: 'static, E, F>(
    map: &mut UnsafeCastMapG<M, O>,
    func: F,
    r: Result<CastKey<T>, E>,
)
    where F: FnOnce(CastKey<T>) -> Result<TaggedHandle, E>,
    requires
        call_ensures(UnsafeCastMapG::<M, O>::try_insert_sized_with_key::<T, E, F>, (map, func), r),
    ensures
        r matches Ok(key) ==> {
            &&& key.meta_spec() == type_id_spec::<T>()
            &&& func.ensures((key,), Ok::<TaggedHandle, E>(final(map).slots()[key.key_spec()@]))
            &&& (final(map).slots()[key.key_spec()@].tag() == type_id_spec::<T>() ==> {
                &&& final(map).slots().contains_key(key.key_spec()@)
                &&& meta_fits(final(map).slots(), key)
            })
        },
        r matches Err(e) ==> exists|k: CastKey<T>|
            k.meta_spec() == type_id_spec::<T>() && #[trigger] func.ensures((k,), Err::<TaggedHandle, E>(e)),
{
}

/// `downcast_key::<C>` re-types a key exactly when its slot is live and its
/// metadata describes the concrete type `C` (is `TypeId::of::<C>()`), and the
/// re-typed key names the same slot with the same metadata.
pub proof fn law_unchecked_downcast_key_accepts_exactly_its_type<M: SlotMapTrait, O: ?Sized, C: 'static>(
    map: &UnsafeCastMapG<M, O>,
    key: CastKey<O>,
    r: Option<CastKey<C>>,
)
    requires
        call_ensures(UnsafeCastMapG::<M, O>::downcast_key::<C>, (map, key), r),
    ensures
        r is Some <==> (map.slots().contains_key(key.key_spec()@) && key.meta_spec() == type_id_spec::<C>()),
        r matches Some(k) ==> k.key_spec() == key.key_spec() && k.meta_spec() == type_id_spec::<C>(),
{
    CastKey::<C>::lemma_assemble(key.key_spec(), key.meta_spec());
}

/// Low-level cast map over `slotmap::SlotMap` (sparse storage).
pub type UnsafeCastMap<O> = UnsafeCastMapG<SparseSlots, O>;

/// Low-level cast map over `slotmap::DenseSlotMap` (contiguous storage).
pub type UnsafeDenseCastMap<O> = UnsafeCastMapG<DenseSlots, O>;

/// [`UnsafeCastMap`] under the name of its boxed form; its values are
/// tagged handles.
pub type UnsafeBoxCastMap<O> = UnsafeCastMap<O>;

/// [`UnsafeDenseCastMap`] under the name of its boxed form; its values
/// are tagged handles.
pub type UnsafeBoxDenseCastMap<O> = UnsafeDenseCastMap<O>;

} // verus!
