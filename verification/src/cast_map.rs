//! The checked cast map.
//!
//! [`CastMapG`] wraps [`UnsafeCastMapG`] and checks every keyed lookup: the
//! concrete type id a key's metadata describes ([`type_id_from_meta`]) is
//! compared with the type id stored next to the value. A key whose slot is
//! vacant, stale, or holds a value of another type resolves to `None`; there
//! is no per-map identity, so a key from another map resolves exactly when
//! the slot it names holds a value of the key's type.
//!
//! `detach` / `reattach` are not offered here: reattaching a value of another
//! type would leave held keys describing the wrong type. They stay on
//! [`UnsafeCastMapG`], reachable through [`CastMapG::inner_mut`].

use std::any::TypeId;
use std::collections::TryReserveError;
use vstd::prelude::*;

use crate::any_haver::{type_id_from_meta, type_id_of, type_id_spec, type_ids_equal, AnyHaver};
use crate::cast_key::{CastKey, InnerKey};
use crate::slotmap_trait::{
    bumped, key_bits, key_index, key_version, law_first_key_of_new_map, law_out_of_date_key_not_live, law_retired_key_not_reissued,
    retired, versions_wf, keys_of_refs, lists_handle_refs, no_versions, retire, versions_after_issue,
    value_refs_written, live_and_disjoint, max_slots, no_live_slots, reserve_limit, with_handles, DenseSlots,
    SlotMapTrait, SparseSlots,
};
use crate::type_tagged_ptr::{ConcreteTypeId, TaggedHandle};
use crate::unsafe_cast_map::{
    handle_of, inserted_fresh, key_in_slots, lists_handles, lists_keys, lists_pairs, meta_fits, whole, UnsafeCastMapG,
};

verus! {

/// Whether `key` resolves in `slots`: its slot is live and holds a value of
/// the concrete type the key's metadata describes.
pub open spec fn resolves<T: ?Sized>(slots: Map<u64, TaggedHandle>, key: CastKey<T>) -> bool {
    &&& slots.contains_key(key.key_spec()@)
    &&& slots[key.key_spec()@].tag() == key.meta_spec()
}

/// Every key of `keys` resolves in `slots`.
pub open spec fn all_resolve<T: ?Sized>(slots: Map<u64, TaggedHandle>, keys: Seq<CastKey<T>>) -> bool {
    forall|i: int| 0 <= i < keys.len() ==> resolves(slots, #[trigger] keys[i])
}

/// A cast map whose keyed lookups are checked against each slot's stored
/// concrete type id. `M` is the backing `slotmap` map and `O` the map's
/// erased output type.
pub struct CastMapG<M, O: ?Sized> {
    inner: UnsafeCastMapG<M, O>,
}

impl<M: SlotMapTrait, O: ?Sized> CastMapG<M, O> {
    /// The wrapped low-level map.
    pub closed spec fn inner_spec(self) -> UnsafeCastMapG<M, O> {
        self.inner
    }

    /// The live slots: backing key to stored value.
    pub open spec fn slots(self) -> Map<u64, TaggedHandle> {
        self.inner_spec().slots()
    }

    /// The detached keys.
    pub open spec fn detached_keys(self) -> Set<u64> {
        self.inner_spec().detached_keys()
    }

    /// How many values the map holds without reallocating.
    pub open spec fn capacity_spec(self) -> nat {
        self.inner_spec().capacity_spec()
    }

    /// Whether making room for `additional` more values needs no allocation.
    pub open spec fn reserve_fits(self, additional: nat) -> bool {
        self.inner_spec().reserve_fits(additional)
    }

    /// The version of every slot of the backing map.
    pub open spec fn slot_versions(self) -> Map<u32, u32> {
        self.inner_spec().slot_versions()
    }

    /// The live keys, in the order iteration visits them.
    pub open spec fn slot_order(self) -> Seq<u64> {
        self.inner_spec().slot_order()
    }

    /// What holds of every map this module builds.
    pub open spec fn wf(self) -> bool {
        self.inner_spec().wf()
    }

    /// Creates a new, empty map.
    pub fn new() -> (r: Self)
        ensures
            r.slot_versions() == no_versions(),
            r.wf(),
            r.slots() == no_live_slots(),
            r.detached_keys() == Set::<u64>::empty(),
    {
        CastMapG { inner: UnsafeCastMapG::new() }
    }

    /// Creates a new map with room for `capacity` values.
    pub fn with_capacity(capacity: usize) -> (r: Self)
        requires
            capacity <= reserve_limit(),
        ensures
            r.slot_versions() == no_versions(),
            r.wf(),
            r.slots() == no_live_slots(),
            r.detached_keys() == Set::<u64>::empty(),
            r.capacity_spec() >= capacity,
    {
        CastMapG { inner: UnsafeCastMapG::with_capacity(capacity) }
    }

    /// Returns true if the map holds no value.
    pub fn is_empty(&self) -> (r: bool)
        requires
            self.wf(),
        ensures
            r == (self.slots().len() == 0),
    {
        self.inner.is_empty()
    }

    /// Returns the number of values held.
    pub fn len(&self) -> (r: usize)
        requires
            self.wf(),
        ensures
            r == self.slots().len(),
    {
        self.inner.len()
    }

    /// Returns how many values the map holds before reallocating.
    pub fn capacity(&self) -> (r: usize)
        ensures
            r == self.capacity_spec(),
    {
        self.inner.capacity()
    }

    /// Reserves room for at least `additional` more values.
    pub fn reserve(&mut self, additional: usize)
        requires
            old(self).wf(),
            old(self).capacity_spec() <= reserve_limit(),
            old(self).slots().len() + additional <= reserve_limit(),
        ensures
            final(self).slot_order() == old(self).slot_order(),
            final(self).slot_versions() == old(self).slot_versions(),
            final(self).wf(),
            final(self).slots() == old(self).slots(),
            final(self).detached_keys() == old(self).detached_keys(),
            final(self).capacity_spec() >= old(self).slots().len() + additional,
    {
        self.inner.reserve(additional)
    }

    /// Tries to reserve room for at least `additional` more values.
    pub fn try_reserve(&mut self, additional: usize) -> (r: Result<(), TryReserveError>)
        requires
            old(self).wf(),
            old(self).slots().len() + additional <= usize::MAX,
        ensures
            final(self).slot_order() == old(self).slot_order(),
            final(self).slot_versions() == old(self).slot_versions(),
            final(self).wf(),
            final(self).slots() == old(self).slots(),
            final(self).detached_keys() == old(self).detached_keys(),
            r is Ok ==> final(self).capacity_spec() >= old(self).slots().len() + additional,
            old(self).reserve_fits(additional as nat) ==> r is Ok
                && final(self).capacity_spec() == old(self).capacity_spec(),
    {
        self.inner.try_reserve(additional)
    }

    /// Removes every value. Outstanding keys stop resolving.
    pub fn clear(&mut self)
        requires
            old(self).wf(),
        ensures
            final(self).slot_versions() == retire(old(self).slot_versions(), old(self).slots().dom()),
            final(self).wf(),
            final(self).slots() == no_live_slots(),
            final(self).detached_keys() == old(self).detached_keys(),
            final(self).capacity_spec() == old(self).capacity_spec(),
    {
        self.inner.clear()
    }

    /// Consumes this map, returning the low-level map it wraps.
    pub fn inner(self) -> (r: UnsafeCastMapG<M, O>)
        ensures
            r == self.inner_spec(),
    {
        self.inner
    }

    /// Shared access to the low-level map.
    pub fn inner_ref(&self) -> (r: &UnsafeCastMapG<M, O>)
        ensures
            *r == self.inner_spec(),
    {
        &self.inner
    }

    /// Mutable access to the low-level map (and through it to `detach` /
    /// `reattach` and the unchecked lookups).
    pub fn inner_mut(&mut self) -> (r: &mut UnsafeCastMapG<M, O>)
        ensures
            *r == old(self).inner_spec(),
            final(self).inner_spec() == *final(r),
    {
        &mut self.inner
    }

    /// The output (stored handle) under a backing key.
    pub fn get_by_inner_key(&self, key: InnerKey) -> (r: Option<&u64>)
        ensures
            r == (if self.slots().contains_key(key@) { Some(&self.slots()[key@].pointer()) } else { None }),
    {
        self.inner.get_by_inner_key(key)
    }

    /// Mutable access to the output under a backing key; the value's type id
    /// is kept.
    pub fn get_by_inner_key_mut(&mut self, key: InnerKey) -> (r: Option<&mut u64>)
        requires
            old(self).wf(),
        ensures
            final(self).slot_order() == old(self).slot_order(),
            final(self).slot_versions() == old(self).slot_versions(),
            final(self).wf(),
            final(self).detached_keys() == old(self).detached_keys(),
            final(self).capacity_spec() == old(self).capacity_spec(),
            r is Some == old(self).slots().contains_key(key@),
            r matches Some(v) ==> *v == old(self).slots()[key@].pointer()
                && final(self).slots() == old(self).slots().insert(key@, old(self).slots()[key@].with_pointer(*final(v))),
            r is None ==> final(self).slots() == old(self).slots(),
    {
        self.inner.get_by_inner_key_mut(key)
    }

    /// Mutable access to the outputs under several backing keys at once:
    /// `None` if a key is not live or two keys name the same slot.
    pub fn get_disjoint_mut_by_inner_key<const N: usize>(&mut self, keys: [InnerKey; N]) -> (r: Option<[&mut u64; N]>)
        requires
            old(self).wf(),
        ensures
            final(self).slot_order() == old(self).slot_order(),
            final(self).slot_versions() == old(self).slot_versions(),
            final(self).wf(),
            final(self).detached_keys() == old(self).detached_keys(),
            final(self).capacity_spec() == old(self).capacity_spec(),
            r is Some == live_and_disjoint(old(self).slots(), keys@),
            r matches Some(refs) ==> (forall|i: int| 0 <= i < N ==> *(#[trigger] refs[i]) == old(self).slots()[keys[i]@].pointer())
                && final(self).slots() == with_handles(old(self).slots(), keys@, Seq::new(N as nat, |i: int| *final(refs[i]))),
            r is None ==> final(self).slots() == old(self).slots(),
    {
        self.inner.get_disjoint_mut_by_inner_key(keys)
    }

    /// Mutable access to the outputs under several backing keys known to be
    /// live and to name distinct slots.
    pub fn get_disjoint_unchecked_mut_by_inner_key<const N: usize>(&mut self, keys: [InnerKey; N]) -> (r: [&mut u64; N])
        requires
            old(self).wf(),
            live_and_disjoint(old(self).slots(), keys@),
        ensures
            final(self).slot_order() == old(self).slot_order(),
            final(self).slot_versions() == old(self).slot_versions(),
            final(self).wf(),
            final(self).detached_keys() == old(self).detached_keys(),
            final(self).capacity_spec() == old(self).capacity_spec(),
            forall|i: int| 0 <= i < N ==> *(#[trigger] r[i]) == old(self).slots()[keys[i]@].pointer(),
            final(self).slots() == with_handles(old(self).slots(), keys@, Seq::new(N as nat, |i: int| *final(r[i]))),
    {
        self.inner.get_disjoint_unchecked_mut_by_inner_key(keys)
    }

    /// Removes a value by its backing key, returning the stored value.
    pub fn remove_by_inner_key(&mut self, key: InnerKey) -> (r: Option<TaggedHandle>)
        requires
            old(self).wf(),
        ensures
            !old(self).slots().contains_key(key@) ==> final(self).slot_order() == old(self).slot_order(),
            final(self).capacity_spec() == old(self).capacity_spec(),
            final(self).slot_versions() == (if old(self).slots().contains_key(key@) {
                old(self).slot_versions().insert(key_index(key@), bumped(key_version(key@)))
            } else {
                old(self).slot_versions()
            }),
            final(self).wf(),
            r == (if old(self).slots().contains_key(key@) { Some(old(self).slots()[key@]) } else { None }),
            final(self).slots() == old(self).slots().remove(key@),
            final(self).detached_keys() == old(self).detached_keys(),
    {
        self.inner.remove_by_inner_key(key)
    }

    /// The outputs of all live slots, each slot once.
    pub fn values(&self) -> (r: Vec<u64>)
        requires
            self.wf(),
        ensures
            lists_handles(r@, self.slots()),
    {
        self.inner.values()
    }
}

impl<M: SlotMapTrait, O: ?Sized> CastMapG<M, O> {
    /// Inserts a value, returning the output-typed key; its metadata is the
    /// value's type id.
    pub fn insert(&mut self, value: TaggedHandle) -> (r: CastKey<O>)
        requires
            old(self).wf(),
            old(self).slots().len() + old(self).detached_keys().len() < max_slots(),
        ensures
            versions_after_issue(
                old(self).slot_versions(),
                final(self).slot_versions(),
                r.key_spec()@,
                old(self).slots().len() + old(self).detached_keys().len(),
            ),
            final(self).wf(),
            final(self).detached_keys() == old(self).detached_keys(),
            inserted_fresh(old(self).slots(), old(self).detached_keys(), final(self).slots(), r.key_spec()@),
            final(self).slots()[r.key_spec()@] == value,
            r.meta_spec() == value.tag(),
    {
        self.inner.insert(value)
    }

    /// Inserts the value `func` produces from the backing key it will live
    /// under, returning the output-typed key.
    pub fn insert_with_key<F>(&mut self, func: F) -> (r: CastKey<O>)
        where F: FnOnce(InnerKey) -> TaggedHandle,
        requires
            old(self).wf(),
            old(self).slots().len() + old(self).detached_keys().len() < max_slots(),
            forall|k: InnerKey| #[trigger] func.requires((k,)),
        ensures
            versions_after_issue(
                old(self).slot_versions(),
                final(self).slot_versions(),
                r.key_spec()@,
                old(self).slots().len() + old(self).detached_keys().len(),
            ),
            final(self).wf(),
            final(self).detached_keys() == old(self).detached_keys(),
            inserted_fresh(old(self).slots(), old(self).detached_keys(), final(self).slots(), r.key_spec()@),
            func.ensures((r.key_spec(),), final(self).slots()[r.key_spec()@]),
            r.meta_spec() == final(self).slots()[r.key_spec()@].tag(),
    {
        self.inner.insert_with_key(func)
    }

    /// Like [`insert_with_key`](Self::insert_with_key), but `func` may fail,
    /// in which case nothing is inserted and its error is returned.
    pub fn try_insert_with_key<E, F>(&mut self, func: F) -> (r: Result<CastKey<O>, E>)
        where F: FnOnce(InnerKey) -> Result<TaggedHandle, E>,
        requires
            old(self).wf(),
            old(self).slots().len() + old(self).detached_keys().len() < max_slots(),
            forall|k: InnerKey| #[trigger] func.requires((k,)),
        ensures
            final(self).wf(),
            final(self).detached_keys() == old(self).detached_keys(),
            r matches Ok(key) ==> {
                &&& versions_after_issue(
                    old(self).slot_versions(),
                    final(self).slot_versions(),
                    key.key_spec()@,
                    old(self).slots().len() + old(self).detached_keys().len(),
                )
                &&& inserted_fresh(old(self).slots(), old(self).detached_keys(), final(self).slots(), key.key_spec()@)
                &&& func.ensures((key.key_spec(),), Ok::<TaggedHandle, E>(final(self).slots()[key.key_spec()@]))
                &&& key.meta_spec() == final(self).slots()[key.key_spec()@].tag()
            },
            r matches Err(e) ==> {
                &&& final(self).slot_order() == old(self).slot_order()
                &&& final(self).slot_versions() == old(self).slot_versions()
                &&& final(self).capacity_spec() == old(self).capacity_spec()
                &&& final(self).slots() == old(self).slots()
                &&& exists|k: InnerKey| func.ensures((k,), Err::<TaggedHandle, E>(e))
            },
    {
        self.inner.try_insert_with_key(func)
    }

    /// Inserts a value of the concrete type `T`, returning a key typed `T`
    /// (whose metadata describes `T`).
    ///
    /// The key's metadata is read from the value's tag (the type id of `T`
    /// for a value of `T`). The `_with_key` forms make the key before the
    /// value exists and take the metadata from `T`, so the two agree exactly
    /// when the value's tag is the type id of `T`.
    pub fn insert_sized<T: 'static>(&mut self, value: TaggedHandle) -> (r: CastKey<T>)
        requires
            old(self).wf(),
            old(self).slots().len() + old(self).detached_keys().len() < max_slots(),
        ensures
            versions_after_issue(
                old(self).slot_versions(),
                final(self).slot_versions(),
                r.key_spec()@,
                old(self).slots().len() + old(self).detached_keys().len(),
            ),
            final(self).wf(),
            final(self).detached_keys() == old(self).detached_keys(),
            inserted_fresh(old(self).slots(), old(self).detached_keys(), final(self).slots(), r.key_spec()@),
            final(self).slots()[r.key_spec()@] == value,
            r.meta_spec() == value.tag(),
    {
        self.inner.insert_sized(value)
    }

    /// Inserts the value `func` produces from the typed key it will live
    /// under, returning that key.
    pub fn insert_sized_with_key<T: 'static, F>(&mut self, func: F) -> (r: CastKey<T>)
        where F: FnOnce(CastKey<T>) -> TaggedHandle,
        requires
            old(self).wf(),
            old(self).slots().len() + old(self).detached_keys().len() < max_slots(),
            forall|k: CastKey<T>| #[trigger] func.requires((k,)),
        ensures
            versions_after_issue(
                old(self).slot_versions(),
                final(self).slot_versions(),
                r.key_spec()@,
                old(self).slots().len() + old(self).detached_keys().len(),
            ),
            final(self).wf(),
            final(self).detached_keys() == old(self).detached_keys(),
            inserted_fresh(old(self).slots(), old(self).detached_keys(), final(self).slots(), r.key_spec()@),
            func.ensures((r,), final(self).slots()[r.key_spec()@]),
            r.meta_spec() == type_id_spec::<T>(),
    {
        self.inner.insert_sized_with_key(func)
    }

    /// Like [`insert_sized_with_key`](Self::insert_sized_with_key), but
    /// `func` may fail, in which case nothing is inserted and its error is
    /// returned.
    pub fn try_insert_sized_with_key<T: 'static, E, F>(&mut self, func: F) -> (r: Result<CastKey<T>, E>)
        where F: FnOnce(CastKey<T>) -> Result<TaggedHandle, E>,
        requires
            old(self).wf(),
            old(self).slots().len() + old(self).detached_keys().len() < max_slots(),
            forall|k: CastKey<T>| #[trigger] func.requires((k,)),
        ensures
            final(self).wf(),
            final(self).detached_keys() == old(self).detached_keys(),
            r matches Ok(key) ==> {
                &&& versions_after_issue(
                    old(self).slot_versions(),
                    final(self).slot_versions(),
                    key.key_spec()@,
                    old(self).slots().len() + old(self).detached_keys().len(),
                )
                &&& inserted_fresh(old(self).slots(), old(self).detached_keys(), final(self).slots(), key.key_spec()@)
                &&& func.ensures((key,), Ok::<TaggedHandle, E>(final(self).slots()[key.key_spec()@]))
                &&& key.meta_spec() == type_id_spec::<T>()
            },
            r matches Err(e) ==> {
                &&& final(self).slot_order() == old(self).slot_order()
                &&& final(self).slot_versions() == old(self).slot_versions()
                &&& final(self).capacity_spec() == old(self).capacity_spec()
                &&& final(self).slots() == old(self).slots()
                &&& exists|k: CastKey<T>| func.ensures((k,), Err::<TaggedHandle, E>(e))
                &&& exists|k: CastKey<T>|
                    k.meta_spec() == type_id_spec::<T>() && #[trigger] func.ensures((k,), Err::<TaggedHandle, E>(e))
            },
    {
        self.inner.try_insert_sized_with_key(func)
    }

    /// Inserts a value, returning a key typed with the source type `S`
    /// whose metadata describes the value's concrete type.
    pub fn insert_as<S: ?Sized>(&mut self, value: TaggedHandle) -> (r: CastKey<S>)
        requires
            old(self).wf(),
            old(self).slots().len() + old(self).detached_keys().len() < max_slots(),
        ensures
            versions_after_issue(
                old(self).slot_versions(),
                final(self).slot_versions(),
                r.key_spec()@,
                old(self).slots().len() + old(self).detached_keys().len(),
            ),
            final(self).wf(),
            final(self).detached_keys() == old(self).detached_keys(),
            inserted_fresh(old(self).slots(), old(self).detached_keys(), final(self).slots(), r.key_spec()@),
            final(self).slots()[r.key_spec()@] == value,
            r.meta_spec() == value.tag(),
    {
        self.inner.insert_as(value)
    }

    /// Inserts the value `func` produces from the backing key it will live
    /// under, returning a key typed with the source type `S`.
    pub fn insert_as_with_key<S: ?Sized, F>(&mut self, func: F) -> (r: CastKey<S>)
        where F: FnOnce(InnerKey) -> TaggedHandle,
        requires
            old(self).wf(),
            old(self).slots().len() + old(self).detached_keys().len() < max_slots(),
            forall|k: InnerKey| #[trigger] func.requires((k,)),
        ensures
            versions_after_issue(
                old(self).slot_versions(),
                final(self).slot_versions(),
                r.key_spec()@,
                old(self).slots().len() + old(self).detached_keys().len(),
            ),
            final(self).wf(),
            final(self).detached_keys() == old(self).detached_keys(),
            inserted_fresh(old(self).slots(), old(self).detached_keys(), final(self).slots(), r.key_spec()@),
            func.ensures((r.key_spec(),), final(self).slots()[r.key_spec()@]),
            r.meta_spec() == final(self).slots()[r.key_spec()@].tag(),
    {
        self.inner.insert_as_with_key(func)
    }

    /// Like [`insert_as_with_key`](Self::insert_as_with_key), but `func` may
    /// fail, in which case nothing is inserted and its error is returned.
    pub fn try_insert_as_with_key<S: ?Sized, E, F>(&mut self, func: F) -> (r: Result<CastKey<S>, E>)
        where F: FnOnce(InnerKey) -> Result<TaggedHandle, E>,
        requires
            old(self).wf(),
            old(self).slots().len() + old(self).detached_keys().len() < max_slots(),
            forall|k: InnerKey| #[trigger] func.requires((k,)),
        ensures
            final(self).wf(),
            final(self).detached_keys() == old(self).detached_keys(),
            r matches Ok(key) ==> {
                &&& versions_after_issue(
                    old(self).slot_versions(),
                    final(self).slot_versions(),
                    key.key_spec()@,
                    old(self).slots().len() + old(self).detached_keys().len(),
                )
                &&& inserted_fresh(old(self).slots(), old(self).detached_keys(), final(self).slots(), key.key_spec()@)
                &&& func.ensures((key.key_spec(),), Ok::<TaggedHandle, E>(final(self).slots()[key.key_spec()@]))
                &&& key.meta_spec() == final(self).slots()[key.key_spec()@].tag()
            },
            r matches Err(e) ==> {
                &&& final(self).slot_order() == old(self).slot_order()
                &&& final(self).slot_versions() == old(self).slot_versions()
                &&& final(self).capacity_spec() == old(self).capacity_spec()
                &&& final(self).slots() == old(self).slots()
                &&& exists|k: InnerKey| func.ensures((k,), Err::<TaggedHandle, E>(e))
            },
    {
        self.inner.try_insert_as_with_key(func)
    }

    /// The output-typed key for a backing key, its metadata read from the
    /// stored value; `None` if the key is not live.
    pub fn cast_key_of(&self, key: InnerKey) -> (r: Option<CastKey<O>>)
        ensures
            r is Some == self.slots().contains_key(key@),
            r matches Some(k) ==> k.key_spec() == key && k.meta_spec() == self.slots()[key@].tag(),
    {
        self.inner.cast_key_of(key)
    }

    /// The output-typed keys of all live slots, each once.
    pub fn keys(&self) -> (r: Vec<CastKey<O>>)
        requires
            self.wf(),
        ensures
            key_bits(r@) == self.slot_order(),
            lists_keys(r@, self.slots()),
    {
        self.inner.keys()
    }

    /// All live slots as (output-typed key, output) pairs, each once.
    pub fn iter(&self) -> (r: Vec<(CastKey<O>, u64)>)
        requires
            self.wf(),
        ensures
            r@.map_values(|p: (CastKey<O>, u64)| p.0.key_spec()@) == self.slot_order(),
            lists_pairs(r@, self.slots(), |v: TaggedHandle| handle_of(v)),
    {
        self.inner.iter()
    }

    /// Empties the map, returning every (output-typed key, stored value)
    /// pair it held, each once.
    pub fn drain(&mut self) -> (r: Vec<(CastKey<O>, TaggedHandle)>)
        requires
            old(self).wf(),
        ensures
            final(self).slot_versions() == retire(old(self).slot_versions(), old(self).slots().dom()),
            final(self).wf(),
            lists_pairs(r@, old(self).slots(), |v: TaggedHandle| whole(v)),
            final(self).slots() == no_live_slots(),
            final(self).detached_keys() == old(self).detached_keys(),
    {
        self.inner.drain()
    }

    /// Consumes the map into every (output-typed key, stored value) pair it
    /// held, each once.
    pub fn into_pairs(self) -> (r: Vec<(CastKey<O>, TaggedHandle)>)
        requires
            self.wf(),
        ensures
            lists_pairs(r@, self.slots(), |v: TaggedHandle| whole(v)),
    {
        self.inner.into_pairs()
    }
}

impl<M: SlotMapTrait, O: ?Sized> CastMapG<M, O> {
    /// A key typed `C` for a backing key whose slot holds a value whose type
    /// id is `concrete`: `Some` exactly when the slot is live and its stored
    /// type id is `concrete`.
    pub fn downcast_key_with_id<C: 'static>(&self, key: InnerKey, concrete: TypeId) -> (r: Option<CastKey<C>>)
        ensures
            r == (if self.slots().contains_key(key@) && self.slots()[key@].tag() == concrete {
                Some(CastKey::<C>::assemble(key, concrete))
            } else {
                None
            }),
    {
        let stored = match self.inner.stored_by_inner_key(key) {
            Some(stored) => stored,
            None => return None,
        };
        let stored_type = stored.concrete_type_id();
        if type_ids_equal(&stored_type, &concrete) {
            Some(CastKey::from_raw_parts(key, concrete))
        } else {
            None
        }
    }

    /// A key typed with the concrete type `C` for a backing key, when its
    /// slot is live and holds a `C`; `None` if the key is stale or the slot
    /// holds another type.
    pub fn downcast_key<C: 'static>(&self, key: InnerKey) -> (r: Option<CastKey<C>>)
        ensures
            r is Some == (self.slots().contains_key(key@) && self.slots()[key@].tag() == type_id_spec::<C>()),
            !self.slots().contains_key(key@) ==> r is None,
            r matches Some(k) ==> k == CastKey::<C>::assemble(key, self.slots()[key@].tag())
                && k == CastKey::<C>::assemble(key, type_id_spec::<C>())
                && resolves(self.slots(), k),
    {
        let concrete = type_id_of::<C>();
        proof {
            CastKey::<C>::lemma_assemble(key, concrete);
        }
        self.downcast_key_with_id::<C>(key, concrete)
    }

    /// Whether the key resolves: its slot is live and holds a value of the
    /// key's type.
    pub fn contains_key<T: ?Sized + AnyHaver>(&self, key: CastKey<T>) -> (r: bool)
        ensures
            r == resolves(self.slots(), key),
    {
        self.get(key).is_some()
    }

    /// The output under a key, if the key resolves; `None` if its slot is
    /// vacant, the key is stale, or the slot holds a value of another type.
    pub fn get<T: ?Sized + AnyHaver>(&self, key: CastKey<T>) -> (r: Option<&u64>)
        ensures
            r == (if resolves(self.slots(), key) {
                Some(&self.slots()[key.key_spec()@].pointer())
            } else {
                None
            }),
    {
        let stored = match self.inner.stored_by_inner_key(key.inner_key()) {
            Some(stored) => stored,
            None => return None,
        };
        let stored_type = stored.concrete_type_id();
        let key_type = type_id_from_meta::<T>(key.metadata());
        if !type_ids_equal(&stored_type, &key_type) {
            return None;
        }
        Some(stored.inner_ref())
    }

    /// The output under a key known to be live and to describe its slot's
    /// type (no check is made).
    pub fn get_unchecked<T: ?Sized>(&self, key: CastKey<T>) -> (r: &u64)
        requires
            resolves(self.slots(), key),
        ensures
            *r == self.slots()[key.key_spec()@].pointer(),
    {
        self.inner.get_unchecked(key)
    }

    /// Removes the value under a key if the key resolves, returning it
    /// re-typed to the key's type (the stored value itself); otherwise the
    /// map is unchanged and `None` is returned.
    pub fn remove<T: ?Sized + AnyHaver>(&mut self, key: CastKey<T>) -> (r: Option<TaggedHandle>)
        requires
            old(self).wf(),
        ensures
            !resolves(old(self).slots(), key) ==> final(self).slot_order() == old(self).slot_order(),
            final(self).capacity_spec() == old(self).capacity_spec(),
            final(self).slot_versions() == (if resolves(old(self).slots(), key) {
                old(self).slot_versions().insert(key_index(key.key_spec()@), bumped(key_version(key.key_spec()@)))
            } else {
                old(self).slot_versions()
            }),
            final(self).wf(),
            final(self).detached_keys() == old(self).detached_keys(),
            r == (if resolves(old(self).slots(), key) {
                Some(old(self).slots()[key.key_spec()@])
            } else {
                None
            }),
            final(self).slots() == (if resolves(old(self).slots(), key) {
                old(self).slots().remove(key.key_spec()@)
            } else {
                old(self).slots()
            }),
    {
        if !self.contains_key(key) {
            return None;
        }
        self.inner.remove(key)
    }

    /// Mutable access to the output under a key, if the key resolves; the
    /// value's type id is kept.
    pub fn get_mut<T: ?Sized + AnyHaver>(&mut self, key: CastKey<T>) -> (r: Option<&mut u64>)
        requires
            old(self).wf(),
        ensures
            final(self).slot_order() == old(self).slot_order(),
            final(self).slot_versions() == old(self).slot_versions(),
            final(self).wf(),
            final(self).detached_keys() == old(self).detached_keys(),
            final(self).capacity_spec() == old(self).capacity_spec(),
            r is Some == resolves(old(self).slots(), key),
            r matches Some(v) ==> *v == old(self).slots()[key.key_spec()@].pointer()
                && final(self).slots() == old(self).slots().insert(
                    key.key_spec()@,
                    old(self).slots()[key.key_spec()@].with_pointer(*final(v)),
                ),
            r is None ==> final(self).slots() == old(self).slots(),
    {
        if !self.contains_key(key) {
            return None;
        }
        self.inner.get_mut(key)
    }

    /// Mutable access to the output under a key known to be live and to
    /// describe its slot's type (no check is made).
    pub fn get_unchecked_mut<T: ?Sized>(&mut self, key: CastKey<T>) -> (r: &mut u64)
        requires
            old(self).wf(),
            resolves(old(self).slots(), key),
        ensures
            final(self).slot_order() == old(self).slot_order(),
            final(self).slot_versions() == old(self).slot_versions(),
            final(self).wf(),
            final(self).detached_keys() == old(self).detached_keys(),
            final(self).capacity_spec() == old(self).capacity_spec(),
            *r == old(self).slots()[key.key_spec()@].pointer(),
            final(self).slots() == old(self).slots().insert(
                key.key_spec()@,
                old(self).slots()[key.key_spec()@].with_pointer(*final(r)),
            ),
    {
        self.inner.get_unchecked_mut(key)
    }

    /// Mutable access to the outputs under several keys at once: `None` if a
    /// key does not resolve (vacant, stale, or another type in its slot) or
    /// two keys name the same slot.
    pub fn get_disjoint_mut<T: ?Sized + AnyHaver, const N: usize>(&mut self, keys: [CastKey<T>; N]) -> (r: Option<[&mut u64; N]>)
        requires
            old(self).wf(),
        ensures
            final(self).slot_order() == old(self).slot_order(),
            final(self).slot_versions() == old(self).slot_versions(),
            final(self).wf(),
            final(self).detached_keys() == old(self).detached_keys(),
            final(self).capacity_spec() == old(self).capacity_spec(),
            r is Some == (all_resolve(old(self).slots(), keys@) && live_and_disjoint(old(self).slots(), keys@)),
            r matches Some(refs) ==> (forall|i: int| 0 <= i < N ==> *(#[trigger] refs[i]) == old(self).slots()[keys[i].key_spec()@].pointer())
                && final(self).slots() == with_handles(old(self).slots(), keys@, Seq::new(N as nat, |i: int| *final(refs[i]))),
            r is None ==> final(self).slots() == old(self).slots(),
    {
        // Check every key's type against its slot first; the backend then
        // checks liveness and disjointness.
        let mut i: usize = 0;
        while i < N
            invariant
                0 <= i <= N,
                *self == *old(self),
                self.wf(),
                forall|j: int| 0 <= j < i ==> resolves(self.slots(), #[trigger] keys[j]),
            decreases N - i,
        {
            if !self.contains_key(keys[i]) {
                return None;
            }
            i += 1;
        }
        self.inner.get_disjoint_mut(keys)
    }

    /// Mutable access to the outputs under several keys known to resolve and
    /// to name distinct slots (no check is made).
    pub fn get_disjoint_unchecked_mut<T: ?Sized, const N: usize>(&mut self, keys: [CastKey<T>; N]) -> (r: [&mut u64; N])
        requires
            old(self).wf(),
            all_resolve(old(self).slots(), keys@),
            live_and_disjoint(old(self).slots(), keys@),
        ensures
            final(self).slot_order() == old(self).slot_order(),
            final(self).slot_versions() == old(self).slot_versions(),
            final(self).wf(),
            final(self).detached_keys() == old(self).detached_keys(),
            final(self).capacity_spec() == old(self).capacity_spec(),
            forall|i: int| 0 <= i < N ==> *(#[trigger] r[i]) == old(self).slots()[keys[i].key_spec()@].pointer(),
            final(self).slots() == with_handles(old(self).slots(), keys@, Seq::new(N as nat, |i: int| *final(r[i]))),
    {
        self.inner.get_disjoint_unchecked_mut(keys)
    }

    /// Every live slot once, as its output-typed key and a mutable reference
    /// to its output; type ids are kept.
    pub fn iter_mut(&mut self) -> (r: Vec<(CastKey<O>, &mut u64)>)
        requires
            old(self).wf(),
        ensures
            final(self).slot_order() == old(self).slot_order(),
            key_bits(keys_of_refs(r@)) == old(self).slot_order(),
            final(self).slot_versions() == old(self).slot_versions(),
            final(self).wf(),
            final(self).detached_keys() == old(self).detached_keys(),
            final(self).capacity_spec() == old(self).capacity_spec(),
            lists_handle_refs(r@, old(self).slots()),
            final(self).slots() == with_handles(old(self).slots(), keys_of_refs(r@), Seq::new(r@.len(), |i: int| *final(r@[i].1))),
    {
        self.inner.iter_mut()
    }

    /// A mutable reference to the output of every live slot, each once; type
    /// ids are kept.
    pub fn values_mut(&mut self) -> (r: Vec<&mut u64>)
        requires
            old(self).wf(),
        ensures
            final(self).slot_order() == old(self).slot_order(),
            final(self).slot_versions() == old(self).slot_versions(),
            final(self).wf(),
            final(self).detached_keys() == old(self).detached_keys(),
            final(self).capacity_spec() == old(self).capacity_spec(),
            value_refs_written(r@, old(self).slots(), final(self).slots(), Seq::new(r@.len(), |i: int| *final(r@[i]))),
    {
        self.inner.values_mut()
    }

    /// Keeps the values for which `f(key, output)` returns `true`, calling it
    /// once on each value with its output-typed key.
    pub fn retain<F>(&mut self, f: F)
        where F: Fn(CastKey<O>, u64) -> bool,
        requires
            old(self).wf(),
            forall|k: CastKey<O>, v: u64| #[trigger] f.requires((k, v)),
        ensures
            final(self).slot_versions() == retire(
                old(self).slot_versions(),
                old(self).slots().dom().difference(final(self).slots().dom()),
            ),
            final(self).wf(),
            final(self).detached_keys() == old(self).detached_keys(),
            final(self).slots().submap_of(old(self).slots()),
            forall|k: InnerKey| #[trigger] old(self).slots().contains_key(k@) ==> f.ensures(
                (CastKey::<O>::assemble(k, old(self).slots()[k@].tag()), old(self).slots()[k@].pointer()),
                final(self).slots().contains_key(k@),
            ),
    {
        self.inner.retain(f)
    }
}

impl<M: SlotMapTrait, O: ?Sized> Clone for CastMapG<M, O> {
    /// A copy holding the same values under the same keys; keys are checked
    /// by slot and stored type id, not by map, so they resolve on the copy
    /// alike.
    fn clone(&self) -> (r: Self)
        ensures
            r.slot_order() == self.slot_order(),
            r.slot_versions() == self.slot_versions(),
            r.wf(),
            r.slots() == self.slots(),
            r.detached_keys() == self.detached_keys(),
    {
        CastMapG { inner: self.inner.clone() }
    }
}

impl<M: SlotMapTrait, O: ?Sized> Default for CastMapG<M, O> {
    /// An empty map.
    fn default() -> (r: Self)
        ensures
            r.slot_versions() == no_versions(),
            r.wf(),
            r.slots() == no_live_slots(),
            r.detached_keys() == Set::<u64>::empty(),
    {
        Self::new()
    }
}

/// A value inserted under a key whose metadata is the value's type id is
/// what a lookup by that key gives back, and no other key's slot changes.
pub proof fn law_get_after_insert<T: ?Sized>(
    before: Map<u64, TaggedHandle>,
    detached: Set<u64>,
    after: Map<u64, TaggedHandle>,
    key: CastKey<T>,
    value: TaggedHandle,
)
    requires
        inserted_fresh(before, detached, after, key.key_spec()@),
        after[key.key_spec()@] == value,
        key.meta_spec() == value.tag(),
    ensures
        resolves(after, key),
        after[key.key_spec()@].pointer() == value.pointer(),
        forall|k: u64| k != key.key_spec()@ ==> (#[trigger] after.contains_key(k) == before.contains_key(k)
            && (before.contains_key(k) ==> after[k] == before[k])),
{
}

/// `downcast_key::<C>` accepts a backing key exactly when its slot is live
/// and holds a value of the concrete type `C` (its stored type id is
/// `TypeId::of::<C>()`), and then gives a key typed `C` for that slot which
/// resolves.
pub proof fn law_downcast_key_accepts_exactly_its_type<M: SlotMapTrait, O: ?Sized, C: 'static>(
    map: &CastMapG<M, O>,
    key: InnerKey,
    r: Option<CastKey<C>>,
)
    requires
        call_ensures(CastMapG::<M, O>::downcast_key::<C>, (map, key), r),
    ensures
        r is Some <==> (map.slots().contains_key(key@) && map.slots()[key@].tag() == type_id_spec::<C>()),
        r matches Some(k) ==> {
            &&& k.key_spec() == key
            &&& k.meta_spec() == type_id_spec::<C>()
            &&& resolves(map.slots(), k)
        },
{
    CastKey::<C>::lemma_assemble(key, type_id_spec::<C>());
}

/// The key `insert_sized_with_key` returns (the one its closure was handed)
/// describes the sized type `T` itself: its metadata is `TypeId::of::<T>()`.
/// So when the closure's value is a `T` tagged with that id, as
/// `TypeTaggedBox::new` tags it, the key resolves in the map it came from.
pub proof fn law_sized_insert_key_resolves<M: SlotMapTrait, O: ?Sized, T: 'static, F>(
    map: &mut CastMapG<M, O>,
    func: F,
    r: CastKey<T>,
)
    where F: FnOnce(CastKey<T>) -> TaggedHandle,
    requires
        call_ensures(CastMapG::<M, O>::insert_sized_with_key::<T, F>, (map, func), r),
    ensures
        r.meta_spec() == type_id_spec::<T>(),
        func.ensures((r,), final(map).slots()[r.key_spec()@]),
        final(map).slots()[r.key_spec()@].tag() == type_id_spec::<T>() ==> resolves(final(map).slots(), r),
{
}

/// Like [`law_sized_insert_key_resolves`], for the fallible
/// `try_insert_sized_with_key`: a key it returns, and any key its closure
/// was handed on a failure, describes `T`.
pub proof fn law_sized_try_insert_key_resolves<M: SlotMapTrait, O: ?Sized, T: 'static, E, F>(
    map: &mut CastMapG<M, O>,
    func: F,
    r: Result<CastKey<T>, E>,
)
    where F: FnOnce(CastKey<T>) -> Result<TaggedHandle, E>,
    requires
        call_ensures(CastMapG::<M, O>::try_insert_sized_with_key::<T, E, F>, (map, func), r),
    ensures
        r matches Ok(key) ==> {
            &&& key.meta_spec() == type_id_spec::<T>()
            &&& func.ensures((key,), Ok::<TaggedHandle, E>(final(map).slots()[key.key_spec()@]))
            &&& (final(map).slots()[key.key_spec()@].tag() == type_id_spec::<T>() ==> resolves(
                final(map).slots(),
                key,
            ))
        },
        r matches Err(e) ==> exists|k: CastKey<T>|
            k.meta_spec() == type_id_spec::<T>() && #[trigger] func.ensures((k,), Err::<TaggedHandle, E>(e)),
{
}

/// Once a key's value is removed, no key naming that slot resolves, and
/// the map holds one value fewer.
pub proof fn law_stale_after_remove<T: ?Sized>(before: Map<u64, TaggedHandle>, key: CastKey<T>)
    requires
        before.dom().finite(),
        resolves(before, key),
    ensures
        forall|other: CastKey<T>| #[trigger] other.key_spec()@ == key.key_spec()@ ==> !resolves(
            before.remove(key.key_spec()@),
            other,
        ),
        before.remove(key.key_spec()@).len() == before.len() - 1,
{
}

/// A key whose slot holds a value of another type does not resolve: a
/// lookup by it gives `None` and a removal by it changes nothing.
pub proof fn law_wrong_type_rejected<T: ?Sized>(slots: Map<u64, TaggedHandle>, key: CastKey<T>)
    requires
        slots.contains_key(key.key_spec()@),
        slots[key.key_spec()@].tag() != key.meta_spec(),
    ensures
        !resolves(slots, key),
{
}

/// After `clear` no key resolves.
pub proof fn law_clear_invalidates<T: ?Sized>(key: CastKey<T>)
    ensures
        !resolves(no_live_slots(), key),
        no_live_slots().len() == 0,
{
    assert(no_live_slots().dom() =~= Set::<u64>::empty());
}

/// Keys carry no map identity: a key resolves in two maps alike when the
/// slot it names is live in both and holds values of the same type.
pub proof fn law_keys_have_no_map_identity<T: ?Sized>(
    a: Map<u64, TaggedHandle>,
    b: Map<u64, TaggedHandle>,
    key: CastKey<T>,
)
    requires
        a.contains_key(key.key_spec()@),
        b.contains_key(key.key_spec()@),
        a[key.key_spec()@].tag() == b[key.key_spec()@].tag(),
    ensures
        resolves(a, key) == resolves(b, key),
{
}

/// Writing an output through `get_mut` keeps the key resolving, and a later
/// lookup reads back what was written; every other slot is unchanged.
pub proof fn law_get_after_get_mut<T: ?Sized>(before: Map<u64, TaggedHandle>, key: CastKey<T>, written: u64)
    requires
        resolves(before, key),
    ensures
        ({
            let after = before.insert(key.key_spec()@, before[key.key_spec()@].with_pointer(written));
            &&& resolves(after, key)
            &&& after[key.key_spec()@].pointer() == written
            &&& after.dom() == before.dom()
            &&& forall|k: u64| k != key.key_spec()@ && #[trigger] before.contains_key(k) ==> after[k] == before[k]
        }),
{
    before[key.key_spec()@].lemma_with_pointer(written);
    let after = before.insert(key.key_spec()@, before[key.key_spec()@].with_pointer(written));
    assert(after.dom() =~= before.dom());
}

/// The checked and the low-level lookups agree on keys that fit their
/// slots: such a key resolves exactly when its slot is live.
pub proof fn law_checked_agrees_with_unchecked<T: ?Sized>(slots: Map<u64, TaggedHandle>, key: CastKey<T>)
    ensures
        resolves(slots, key) == (slots.contains_key(key.key_spec()@) && meta_fits(slots, key)),
{
}

/// Every key the map lists (through `keys`, `iter`, `drain` or
/// `cast_key_of`) resolves: its metadata is its stored value's type id.
pub proof fn law_listed_keys_resolve<O: ?Sized>(slots: Map<u64, TaggedHandle>, keys: Seq<CastKey<O>>)
    requires
        lists_keys(keys, slots),
    ensures
        all_resolve(slots, keys),
{
    assert forall|i: int| 0 <= i < keys.len() implies resolves(slots, #[trigger] keys[i]) by {
        assert(key_in_slots(keys[i], slots));
    }
}

/// Re-typing a key (`upcast`) changes neither the slot it names nor the
/// type its metadata describes, so it resolves exactly where the key it
/// came from does.
pub proof fn law_upcast_keeps_resolution<T: ?Sized, U: ?Sized>(
    slots: Map<u64, TaggedHandle>,
    key: CastKey<T>,
    upcast: CastKey<U>,
)
    requires
        upcast.key_spec() == key.key_spec(),
        upcast.meta_spec() == key.meta_spec(),
    ensures
        resolves(slots, upcast) == resolves(slots, key),
{
}

/// A removed (or cleared, detached, drained, dropped by `retain`) key stays
/// stale across a later insertion: the insertion issues another key, and the
/// old key still does not resolve.
pub proof fn law_stale_after_reinsert<T: ?Sized>(
    vacated: Map<u32, u32>,
    slots_after: Map<u64, TaggedHandle>,
    detached_after: Set<u64>,
    versions_after: Map<u32, u32>,
    issued: u64,
    occupied: nat,
    key: CastKey<T>,
)
    requires
        retired(vacated, key.key_spec()@),
        versions_after_issue(vacated, versions_after, issued, occupied),
        versions_wf(slots_after, detached_after, versions_after),
    ensures
        issued != key.key_spec()@,
        !resolves(slots_after, key),
{
    law_retired_key_not_reissued(vacated, versions_after, issued, occupied, key.key_spec()@);
    law_out_of_date_key_not_live(slots_after, detached_after, versions_after, key.key_spec()@);
}

/// Two new maps issue the same first key, so the first key of one resolves
/// in the other whenever the other's first value is of the key's type.
pub proof fn law_new_maps_share_first_key<T: ?Sized>(
    a_versions: Map<u32, u32>,
    b_versions: Map<u32, u32>,
    a_key: CastKey<T>,
    b_key: u64,
    b_slots: Map<u64, TaggedHandle>,
)
    requires
        versions_after_issue(no_versions(), a_versions, a_key.key_spec()@, 0),
        versions_after_issue(no_versions(), b_versions, b_key, 0),
        b_slots.contains_key(b_key),
        b_slots[b_key].tag() == a_key.meta_spec(),
    ensures
        a_key.key_spec()@ == b_key,
        resolves(b_slots, a_key),
{
    law_first_key_of_new_map(a_versions, a_key.key_spec()@);
    law_first_key_of_new_map(b_versions, b_key);
}

/// Checked cast map over `slotmap::SlotMap` (sparse storage).
pub type CastMap<O> = CastMapG<SparseSlots, O>;

/// Checked cast map over `slotmap::DenseSlotMap` (contiguous storage, fast
/// iteration).
pub type DenseCastMap<O> = CastMapG<DenseSlots, O>;

/// [`CastMap`] under the name of its boxed form; its values are tagged
/// handles.
pub type BoxCastMap<O> = CastMap<O>;

/// [`DenseCastMap`] under the name of its boxed form; its values are
/// tagged handles.
pub type BoxDenseCastMap<O> = DenseCastMap<O>;

} // verus!
