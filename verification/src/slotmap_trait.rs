//! The storage backend the cast maps delegate to.
//!
//! [`SlotMapTrait`] captures the part of the `slotmap` API that
//! [`UnsafeCastMapG`](crate::unsafe_cast_map::UnsafeCastMapG) and
//! [`CastMapG`](crate::cast_map::CastMapG) build on, so the cast logic is
//! written once, generic over the backend. It is implemented for
//! `slotmap::SlotMap` and `slotmap::DenseSlotMap`, each storing
//! [`TaggedHandle`]s.
//!
//! A backend is described by the live slots (key to stored value), the
//! detached keys (removed by `detach`, awaiting `reattach`), the capacity,
//! the version of each slot and the order in which iteration visits the live
//! keys. A key is its slot's index and a version; a slot's version advances
//! each time a value leaves or enters it, so a key whose value left does not
//! come back until the version wraps around (after 2^31 reuses of its slot).

use std::collections::TryReserveError;
use slotmap::{DefaultKey, DenseSlotMap, Key, KeyData, SlotMap};
use vstd::prelude::*;

use crate::cast_key::{canonical_key_bits, CastKey, InnerKey, SlotKey};
use crate::type_tagged_ptr::ConcreteTypeId;
use crate::type_tagged_ptr::TaggedHandle;

verus! {

/// The most slots (live or detached) a `slotmap` map can hold: one slot index
/// is reserved for a sentinel and `u32::MAX` is never issued.
pub open spec fn max_slots() -> nat {
    0xFFFF_FFFE
}

/// A bound on requested capacities under which no allocation size computed
/// by the backend (with `Vec`'s doubling growth) can exceed `isize::MAX`
/// bytes.
pub open spec fn reserve_limit() -> nat {
    (isize::MAX as nat) / 256
}

/// The slot index of a key: the low half of its 64-bit representation.
pub open spec fn key_index(k: u64) -> u32 {
    (k % 0x1_0000_0000) as u32
}

/// The version of a key: the high half of its 64-bit representation.
pub open spec fn key_version(k: u64) -> u32 {
    (k / 0x1_0000_0000) as u32
}

/// A slot version advanced by one, wrapping as `u32::wrapping_add` does.
pub open spec fn bumped(version: u32) -> u32 {
    ((version + 1) % 0x1_0000_0000) as u32
}

/// The slot versions after the slots of the keys `gone` are vacated: each
/// such slot's version advances by one, the others stay.
pub open spec fn retire(versions: Map<u32, u32>, gone: Set<u64>) -> Map<u32, u32> {
    Map::new(
        |i: u32| versions.contains_key(i),
        |i: u32|
            if exists|k: u64| #[trigger] gone.contains(k) && key_index(k) == i {
                bumped(versions[i])
            } else {
                versions[i]
            },
    )
}

/// `key` is the key an insertion issues given the slot versions: in a slot
/// that already exists, the version after the slot's (vacant) one; in a new
/// slot, version 1.
pub open spec fn issued_next(versions: Map<u32, u32>, key: u64) -> bool {
    if versions.contains_key(key_index(key)) {
        key_version(key) == bumped(versions[key_index(key)])
    } else {
        key_version(key) == 1
    }
}

/// `after` is the slot versions once `key` has been issued from `before`,
/// where `occupied` slots hold a live or detached key: a vacant slot is
/// reused while there is one; otherwise a new slot is added after the last.
pub open spec fn versions_after_issue(before: Map<u32, u32>, after: Map<u32, u32>, key: u64, occupied: nat) -> bool {
    &&& issued_next(before, key)
    &&& after == before.insert(key_index(key), key_version(key))
    &&& if before.len() == occupied {
        key_index(key) == before.len() + 1
    } else {
        before.contains_key(key_index(key))
    }
}

/// `key`'s slot has moved on past it: the slot is neither at the key's
/// version nor one version before it, so the key is not live and is not the
/// key the next insertion into that slot issues.
pub open spec fn retired(versions: Map<u32, u32>, key: u64) -> bool {
    &&& versions.contains_key(key_index(key))
    &&& versions[key_index(key)] != key_version(key)
    &&& bumped(versions[key_index(key)]) != key_version(key)
}

/// Vacating a live key's slot (by `remove`, `detach`, `clear`, `drain` or
/// `retain`) retires the key.
pub proof fn law_vacating_retires_key(versions: Map<u32, u32>, gone: Set<u64>, key: u64)
    requires
        versions.contains_key(key_index(key)),
        versions[key_index(key)] == key_version(key),
        gone.contains(key),
    ensures
        retired(versions.insert(key_index(key), bumped(key_version(key))), key),
        retired(retire(versions, gone), key),
{
    assert(retire(versions, gone)[key_index(key)] == bumped(versions[key_index(key)]));
}

/// `clear` (and `drain`) retire every key that was live.
pub proof fn law_clear_retires_every_key(live: Map<u64, TaggedHandle>, detached: Set<u64>, versions: Map<u32, u32>)
    requires
        versions_wf(live, detached, versions),
    ensures
        forall|k: u64| #[trigger] live.contains_key(k) ==> retired(retire(versions, live.dom()), k),
{
    assert forall|k: u64| #[trigger] live.contains_key(k) implies retired(retire(versions, live.dom()), k) by {
        law_vacating_retires_key(versions, live.dom(), k);
    }
}

/// An insertion never issues a retired key, and the key stays out of date
/// with its slot afterwards, so it does not become live.
pub proof fn law_retired_key_not_reissued(
    before: Map<u32, u32>,
    after: Map<u32, u32>,
    issued: u64,
    occupied: nat,
    key: u64,
)
    requires
        retired(before, key),
        versions_after_issue(before, after, issued, occupied),
    ensures
        issued != key,
        after.contains_key(key_index(key)),
        after[key_index(key)] != key_version(key),
{
}

/// A key is its version and its slot index put together.
pub proof fn lemma_key_parts(key: u64)
    ensures
        key == key_version(key) * 0x1_0000_0000 + key_index(key),
{
}

/// The first key a map with no slots issues is slot 1 at version 1: every
/// new map issues the same first key.
pub proof fn law_first_key_of_new_map(after: Map<u32, u32>, key: u64)
    requires
        versions_after_issue(no_versions(), after, key, 0),
    ensures
        key_index(key) == 1,
        key_version(key) == 1,
        key == 0x1_0000_0001,
{
    assert(no_versions().dom() =~= Set::<u32>::empty());
    lemma_key_parts(key);
}

/// How many version advances a slot at `version` is past a key of version
/// `key_version`, counting round the wrap.
pub open spec fn versions_past(version: u32, key_version: u32) -> nat {
    if version >= key_version {
        (version - key_version) as nat
    } else {
        (version + 0x1_0000_0000 - key_version) as nat
    }
}

/// Each step of a slot's version history keeps the version or advances it by
/// one.
pub open spec fn advances_by_steps(history: Seq<u32>) -> bool {
    forall|i: int| 1 <= i < history.len() ==> #[trigger] history[i] == history[i - 1]
        || history[i] == bumped(history[i - 1])
}

proof fn lemma_versions_past_bound(history: Seq<u32>, key_version: u32, i: int)
    requires
        history.len() >= 1,
        history[0] != key_version,
        advances_by_steps(history),
        versions_past(history[0], key_version) + history.len() <= 0x1_0000_0000,
        0 <= i < history.len(),
    ensures
        1 <= versions_past(history[i], key_version) <= versions_past(history[0], key_version) + i,
    decreases i,
{
    if i > 0 {
        lemma_versions_past_bound(history, key_version, i - 1);
        assert(history[i] == history[i - 1] || history[i] == bumped(history[i - 1]));
    }
}

/// A key out of date with its slot stays out of date, and so not live,
/// through every later change to the slot's version (each a keep or an
/// advance by one, as removals and insertions make them) until the version
/// comes round to the key's: starting `d` advances past the key, that takes
/// at least `2^32 - d` advances, two per reuse of the slot.
pub proof fn law_retired_key_stays_retired(history: Seq<u32>, key_version: u32)
    requires
        history.len() >= 1,
        history[0] != key_version,
        advances_by_steps(history),
        versions_past(history[0], key_version) + history.len() <= 0x1_0000_0000,
    ensures
        forall|i: int| 0 <= i < history.len() ==> #[trigger] history[i] != key_version,
{
    assert forall|i: int| 0 <= i < history.len() implies #[trigger] history[i] != key_version by {
        lemma_versions_past_bound(history, key_version, i);
    }
}

/// A key whose slot is at another version is not live.
pub proof fn law_out_of_date_key_not_live(
    live: Map<u64, TaggedHandle>,
    detached: Set<u64>,
    versions: Map<u32, u32>,
    key: u64,
)
    requires
        versions_wf(live, detached, versions),
        versions.contains_key(key_index(key)),
        versions[key_index(key)] != key_version(key),
    ensures
        !live.contains_key(key),
{
}

/// How keys relate to slot versions: a live key's version is its slot's
/// version, and a detached key's slot is one version past it.
pub open spec fn versions_wf(live: Map<u64, TaggedHandle>, detached: Set<u64>, versions: Map<u32, u32>) -> bool {
    &&& forall|k: u64| #[trigger] live.contains_key(k) ==> versions.contains_key(key_index(k))
        && versions[key_index(k)] == key_version(k)
    &&& forall|k: u64| #[trigger] detached.contains(k) ==> versions.contains_key(key_index(k))
        && versions[key_index(k)] == bumped(key_version(k))
}

/// What holds of the state of every `slotmap` map: finitely many live and
/// detached keys, disjoint, all issued keys, within the slot limit, no more
/// live values than the capacity, and keys matching their slots' versions.
pub open spec fn slot_state_wf(
    live: Map<u64, TaggedHandle>,
    detached: Set<u64>,
    capacity: nat,
    versions: Map<u32, u32>,
) -> bool {
    &&& versions_wf(live, detached, versions)
    &&& versions.dom().finite()
    &&& forall|i: u32| #[trigger] versions.contains_key(i) <==> 1 <= i <= versions.len()
    &&& live.len() + detached.len() <= versions.len()
    &&& live.dom().finite()
    &&& detached.finite()
    &&& live.dom().disjoint(detached)
    &&& forall|k: u64| live.contains_key(k) ==> canonical_key_bits(k)
    &&& forall|k: u64| detached.contains(k) ==> canonical_key_bits(k)
    &&& live.len() + detached.len() <= max_slots()
    &&& live.len() <= capacity
}

/// No slot yet: the slot versions of a new map.
pub open spec fn no_versions() -> Map<u32, u32> {
    Map::empty()
}

/// The keys of listed slots, in order.
pub open spec fn entry_keys(entries: Seq<(InnerKey, TaggedHandle)>) -> Seq<u64> {
    entries.map_values(|e: (InnerKey, TaggedHandle)| e.0@)
}

/// The backing keys of typed keys, in order.
pub open spec fn key_bits<O: ?Sized>(keys: Seq<CastKey<O>>) -> Seq<u64> {
    keys.map_values(|k: CastKey<O>| k.key_spec()@)
}

/// No live slot.
pub open spec fn no_live_slots() -> Map<u64, TaggedHandle> {
    Map::empty()
}

/// `entries` lists exactly the live slots of `live`, each once.
pub open spec fn lists_slots(entries: Seq<(InnerKey, TaggedHandle)>, live: Map<u64, TaggedHandle>) -> bool {
    &&& entries.len() == live.len()
    &&& forall|i: int| 0 <= i < entries.len() ==> #[trigger] live.contains_key(entries[i].0@)
        && live[entries[i].0@] == entries[i].1
    &&& forall|k: u64| live.contains_key(k) ==> exists|i: int| 0 <= i < entries.len() && #[trigger] entries[i].0@ == k
    &&& forall|i: int, j: int| 0 <= i < j < entries.len() ==> entries[i].0@ != entries[j].0@
}

/// The keys name live slots of `live`, no slot twice.
pub open spec fn live_and_disjoint<K: SlotKey>(live: Map<u64, TaggedHandle>, keys: Seq<K>) -> bool {
    &&& forall|i: int| 0 <= i < keys.len() ==> live.contains_key(#[trigger] keys[i].backing_spec()@)
    &&& forall|i: int, j: int| 0 <= i < j < keys.len() ==> keys[i].backing_spec()@ != keys[j].backing_spec()@
}

/// `live` with the handle stored under each of `keys` replaced by the
/// handle at the same position of `handles`; type ids are kept.
pub open spec fn with_handles<K: SlotKey>(
    live: Map<u64, TaggedHandle>,
    keys: Seq<K>,
    handles: Seq<u64>,
) -> Map<u64, TaggedHandle> {
    Map::new(
        |k: u64| live.contains_key(k),
        |k: u64|
            if exists|i: int| 0 <= i < keys.len() && #[trigger] keys[i].backing_spec()@ == k {
                live[k].with_pointer(
                    handles[choose|i: int| 0 <= i < keys.len() && #[trigger] keys[i].backing_spec()@ == k],
                )
            } else {
                live[k]
            },
    )
}

/// Writes through the references of a disjoint lookup land in exactly the
/// slots named, in order, each keeping its type id; no other slot changes.
pub proof fn law_disjoint_writes<K: SlotKey>(live: Map<u64, TaggedHandle>, keys: Seq<K>, handles: Seq<u64>)
    requires
        live_and_disjoint(live, keys),
        handles.len() == keys.len(),
    ensures
        with_handles(live, keys, handles).dom() == live.dom(),
        forall|i: int| 0 <= i < keys.len() ==> #[trigger] with_handles(live, keys, handles)[keys[i].backing_spec()@]
            == live[keys[i].backing_spec()@].with_pointer(handles[i]),
        forall|k: u64| #[trigger] live.contains_key(k) && (forall|i: int| 0 <= i < keys.len() ==> keys[i].backing_spec()@ != k)
            ==> with_handles(live, keys, handles)[k] == live[k],
{
    let m = with_handles(live, keys, handles);
    assert(m.dom() =~= live.dom());
    assert forall|i: int| 0 <= i < keys.len() implies #[trigger] m[keys[i].backing_spec()@]
        == live[keys[i].backing_spec()@].with_pointer(handles[i]) by {
        let k = keys[i].backing_spec()@;
        assert(live.contains_key(k));
        assert(exists|j: int| 0 <= j < keys.len() && #[trigger] keys[j].backing_spec()@ == k);
        let j = choose|j: int| 0 <= j < keys.len() && #[trigger] keys[j].backing_spec()@ == k;
        if j != i {
            if i < j {
                assert(keys[i].backing_spec()@ != keys[j].backing_spec()@);
            } else {
                assert(keys[j].backing_spec()@ != keys[i].backing_spec()@);
            }
        }
    }
}

/// `refs` lists the live slots of `live`, each once, as keys whose metadata
/// is the stored value's type id, paired with a mutable reference that
/// starts at the stored handle.
pub open spec fn lists_handle_refs<O: ?Sized>(refs: Seq<(CastKey<O>, &mut u64)>, live: Map<u64, TaggedHandle>) -> bool {
    &&& refs.len() == live.len()
    &&& forall|i: int| 0 <= i < refs.len() ==> {
        &&& live.contains_key(#[trigger] refs[i].0.key_spec()@)
        &&& refs[i].0.meta_spec() == live[refs[i].0.key_spec()@].tag()
        &&& *refs[i].1 == live[refs[i].0.key_spec()@].pointer()
    }
    &&& forall|k: u64| live.contains_key(k) ==> exists|i: int| 0 <= i < refs.len() && #[trigger] refs[i].0.key_spec()@ == k
    &&& forall|i: int, j: int| 0 <= i < j < refs.len() ==> refs[i].0.key_spec()@ != refs[j].0.key_spec()@
}

/// `refs` are mutable references to the handles of the live slots of `live`
/// named by `keys`, which list every live slot once, in the same order.
pub open spec fn lists_value_refs(refs: Seq<&mut u64>, keys: Seq<InnerKey>, live: Map<u64, TaggedHandle>) -> bool {
    &&& refs.len() == keys.len()
    &&& keys.len() == live.len()
    &&& forall|i: int| 0 <= i < keys.len() ==> live.contains_key(#[trigger] keys[i]@)
        && *refs[i] == live[keys[i]@].pointer()
    &&& forall|k: u64| live.contains_key(k) ==> exists|i: int| 0 <= i < keys.len() && #[trigger] keys[i]@ == k
    &&& forall|i: int, j: int| 0 <= i < j < keys.len() ==> keys[i]@ != keys[j]@
}

/// `refs` reach the handles of every live slot of `before` once, and `after`
/// is `before` with each of those handles replaced by the value at the same
/// position of `finals` (the values the references end with).
pub open spec fn value_refs_written(
    refs: Seq<&mut u64>,
    before: Map<u64, TaggedHandle>,
    after: Map<u64, TaggedHandle>,
    finals: Seq<u64>,
) -> bool {
    exists|keys: Seq<InnerKey>| {
        &&& #[trigger] lists_value_refs(refs, keys, before)
        &&& after == with_handles(before, keys, finals)
    }
}

/// The keys of a listing of references.
pub open spec fn keys_of_refs<O: ?Sized>(refs: Seq<(CastKey<O>, &mut u64)>) -> Seq<CastKey<O>> {
    refs.map_values(|p: (CastKey<O>, &mut u64)| p.0)
}

/// What holds of the state of every backend.
pub open spec fn backend_wf<M: SlotMapTrait>(m: M) -> bool {
    slot_state_wf(m.live(), m.detached(), m.capacity_spec(), m.versions())
}

/// The subset of a `slotmap` map the cast maps rely on.
pub trait SlotMapTrait: Sized {
    /// The live slots: backing key to stored value.
    spec fn live(&self) -> Map<u64, TaggedHandle>;

    /// The keys currently detached (reserved for `reattach`).
    spec fn detached(&self) -> Set<u64>;

    /// How many values the backend holds without reallocating.
    spec fn capacity_spec(&self) -> nat;

    /// Whether making room for `additional` more values needs no allocation.
    spec fn reserve_fits(&self, additional: nat) -> bool;

    /// The version of every slot (by slot index), live or vacant.
    spec fn versions(&self) -> Map<u32, u32>;

    /// The live keys, in the order iteration visits them.
    spec fn order(&self) -> Seq<u64>;

    /// Creates an empty backend.
    fn empty() -> (r: Self)
        ensures
            r.versions() == no_versions(),
            slot_state_wf(r.live(), r.detached(), r.capacity_spec(), r.versions()),
            r.live() == no_live_slots(),
            r.detached() == Set::<u64>::empty(),
    ;

    /// Creates an empty backend with room for `capacity` values.
    fn with_capacity(capacity: usize) -> (r: Self)
        requires
            capacity <= reserve_limit(),
        ensures
            r.versions() == no_versions(),
            slot_state_wf(r.live(), r.detached(), r.capacity_spec(), r.versions()),
            r.live() == no_live_slots(),
            r.detached() == Set::<u64>::empty(),
            r.capacity_spec() >= capacity,
    ;

    /// A copy holding the same live slots and detached keys.
    fn duplicate(&self) -> (r: Self)
        ensures
            r.order() == self.order(),
            r.versions() == self.versions(),
            slot_state_wf(r.live(), r.detached(), r.capacity_spec(), r.versions()),
            r.live() == self.live(),
            r.detached() == self.detached(),
    ;

    fn len(&self) -> (r: usize)
        requires
            slot_state_wf(self.live(), self.detached(), self.capacity_spec(), self.versions()),
        ensures
            r == self.live().len(),
    ;

    fn is_empty(&self) -> (r: bool)
        requires
            slot_state_wf(self.live(), self.detached(), self.capacity_spec(), self.versions()),
        ensures
            r == (self.live().len() == 0),
    ;

    fn capacity(&self) -> (r: usize)
        ensures
            r == self.capacity_spec(),
    ;

    fn reserve(&mut self, additional: usize)
        requires
            slot_state_wf(old(self).live(), old(self).detached(), old(self).capacity_spec(), old(self).versions()),
            old(self).capacity_spec() <= reserve_limit(),
            old(self).live().len() + additional <= reserve_limit(),
        ensures
            final(self).order() == old(self).order(),
            final(self).versions() == old(self).versions(),
            slot_state_wf(final(self).live(), final(self).detached(), final(self).capacity_spec(), final(self).versions()),
            final(self).live() == old(self).live(),
            final(self).detached() == old(self).detached(),
            final(self).capacity_spec() >= old(self).live().len() + additional,
    ;

    fn try_reserve(&mut self, additional: usize) -> (r: Result<(), TryReserveError>)
        requires
            slot_state_wf(old(self).live(), old(self).detached(), old(self).capacity_spec(), old(self).versions()),
            old(self).live().len() + additional <= usize::MAX,
        ensures
            final(self).order() == old(self).order(),
            final(self).versions() == old(self).versions(),
            slot_state_wf(final(self).live(), final(self).detached(), final(self).capacity_spec(), final(self).versions()),
            final(self).live() == old(self).live(),
            final(self).detached() == old(self).detached(),
            r is Ok ==> final(self).capacity_spec() >= old(self).live().len() + additional,
            old(self).reserve_fits(additional as nat) ==> r is Ok
                && final(self).capacity_spec() == old(self).capacity_spec(),
    ;

    fn clear(&mut self)
        requires
            slot_state_wf(old(self).live(), old(self).detached(), old(self).capacity_spec(), old(self).versions()),
        ensures
            final(self).versions() == retire(old(self).versions(), old(self).live().dom()),
            slot_state_wf(final(self).live(), final(self).detached(), final(self).capacity_spec(), final(self).versions()),
            final(self).live() == no_live_slots(),
            final(self).detached() == old(self).detached(),
            final(self).capacity_spec() == old(self).capacity_spec(),
    ;

    fn contains_key(&self, key: InnerKey) -> (r: bool)
        ensures
            r == self.live().contains_key(key@),
    ;

    fn get(&self, key: InnerKey) -> (r: Option<&TaggedHandle>)
        ensures
            r == (if self.live().contains_key(key@) { Some(&self.live()[key@]) } else { None }),
    ;

    fn get_mut(&mut self, key: InnerKey) -> (r: Option<&mut TaggedHandle>)
        requires
            slot_state_wf(old(self).live(), old(self).detached(), old(self).capacity_spec(), old(self).versions()),
        ensures
            final(self).order() == old(self).order(),
            final(self).versions() == old(self).versions(),
            slot_state_wf(final(self).live(), final(self).detached(), final(self).capacity_spec(), final(self).versions()),
            final(self).detached() == old(self).detached(),
            final(self).capacity_spec() == old(self).capacity_spec(),
            r is Some == old(self).live().contains_key(key@),
            r matches Some(v) ==> *v == old(self).live()[key@]
                && final(self).live() == old(self).live().insert(key@, *final(v)),
            r is None ==> final(self).live() == old(self).live(),
    ;

    /// Mutable access to the handles under several keys at once: `Some`
    /// exactly when every key is live and no two name the same slot.
    fn get_disjoint_mut<K: SlotKey, const N: usize>(&mut self, keys: [K; N]) -> (r: Option<[&mut u64; N]>)
        requires
            slot_state_wf(old(self).live(), old(self).detached(), old(self).capacity_spec(), old(self).versions()),
        ensures
            final(self).order() == old(self).order(),
            final(self).versions() == old(self).versions(),
            slot_state_wf(final(self).live(), final(self).detached(), final(self).capacity_spec(), final(self).versions()),
            final(self).detached() == old(self).detached(),
            final(self).capacity_spec() == old(self).capacity_spec(),
            r is Some == live_and_disjoint(old(self).live(), keys@),
            r matches Some(refs) ==> (forall|i: int| 0 <= i < N ==> *(#[trigger] refs[i]) == old(self).live()[keys[i].backing_spec()@].pointer())
                && final(self).live() == with_handles(old(self).live(), keys@, Seq::new(N as nat, |i: int| *final(refs[i]))),
            r is None ==> final(self).live() == old(self).live(),
    ;

    /// Every live slot once, as a key typed with the output type `O` and a
    /// mutable reference to its handle.
    fn iter_mut<O: ?Sized>(&mut self) -> (r: Vec<(CastKey<O>, &mut u64)>)
        requires
            slot_state_wf(old(self).live(), old(self).detached(), old(self).capacity_spec(), old(self).versions()),
        ensures
            final(self).order() == old(self).order(),
            key_bits(keys_of_refs(r@)) == old(self).order(),
            final(self).versions() == old(self).versions(),
            slot_state_wf(final(self).live(), final(self).detached(), final(self).capacity_spec(), final(self).versions()),
            final(self).detached() == old(self).detached(),
            final(self).capacity_spec() == old(self).capacity_spec(),
            lists_handle_refs(r@, old(self).live()),
            final(self).live() == with_handles(old(self).live(), keys_of_refs(r@), Seq::new(r@.len(), |i: int| *final(r@[i].1))),
    ;

    /// A mutable reference to the handle of every live slot, each once.
    fn values_mut(&mut self) -> (r: Vec<&mut u64>)
        requires
            slot_state_wf(old(self).live(), old(self).detached(), old(self).capacity_spec(), old(self).versions()),
        ensures
            final(self).order() == old(self).order(),
            final(self).versions() == old(self).versions(),
            slot_state_wf(final(self).live(), final(self).detached(), final(self).capacity_spec(), final(self).versions()),
            final(self).detached() == old(self).detached(),
            final(self).capacity_spec() == old(self).capacity_spec(),
            value_refs_written(r@, old(self).live(), final(self).live(), Seq::new(r@.len(), |i: int| *final(r@[i]))),
    ;

    /// Keeps the live slots for which `f` returns `true`, calling it once on
    /// each.
    fn retain<F>(&mut self, f: F)
        where F: Fn(InnerKey, TaggedHandle) -> bool,
        requires
            slot_state_wf(old(self).live(), old(self).detached(), old(self).capacity_spec(), old(self).versions()),
            forall|k: InnerKey, v: TaggedHandle| #[trigger] f.requires((k, v)),
        ensures
            final(self).versions() == retire(
                old(self).versions(),
                old(self).live().dom().difference(final(self).live().dom()),
            ),
            slot_state_wf(final(self).live(), final(self).detached(), final(self).capacity_spec(), final(self).versions()),
            final(self).detached() == old(self).detached(),
            final(self).live().submap_of(old(self).live()),
            forall|k: InnerKey| #[trigger] old(self).live().contains_key(k@) ==> f.ensures(
                (k, old(self).live()[k@]),
                final(self).live().contains_key(k@),
            ),
    ;

    fn remove(&mut self, key: InnerKey) -> (r: Option<TaggedHandle>)
        requires
            slot_state_wf(old(self).live(), old(self).detached(), old(self).capacity_spec(), old(self).versions()),
        ensures
            !old(self).live().contains_key(key@) ==> final(self).order() == old(self).order(),
            final(self).capacity_spec() == old(self).capacity_spec(),
            final(self).versions() == (if old(self).live().contains_key(key@) {
                old(self).versions().insert(key_index(key@), bumped(key_version(key@)))
            } else {
                old(self).versions()
            }),
            slot_state_wf(final(self).live(), final(self).detached(), final(self).capacity_spec(), final(self).versions()),
            r == (if old(self).live().contains_key(key@) { Some(old(self).live()[key@]) } else { None }),
            final(self).live() == old(self).live().remove(key@),
            final(self).detached() == old(self).detached(),
    ;

    /// Inserts the value produced by `f`, which receives the key it will live
    /// under; nothing is inserted if `f` returns `Err`.
    fn try_insert_with_key<F, E>(&mut self, f: F) -> (r: Result<InnerKey, E>)
        where F: FnOnce(InnerKey) -> Result<TaggedHandle, E>,
        requires
            slot_state_wf(old(self).live(), old(self).detached(), old(self).capacity_spec(), old(self).versions()),
            old(self).live().len() + old(self).detached().len() < max_slots(),
            forall|k: InnerKey| #[trigger] f.requires((k,)),
        ensures
            slot_state_wf(final(self).live(), final(self).detached(), final(self).capacity_spec(), final(self).versions()),
            final(self).detached() == old(self).detached(),
            match r {
                Ok(k) => {
                    &&& versions_after_issue(old(self).versions(), final(self).versions(), k@, old(self).live().len() + old(self).detached().len())
                    &&& !old(self).live().contains_key(k@)
                    &&& !old(self).detached().contains(k@)
                    &&& f.ensures((k,), Ok(final(self).live()[k@]))
                    &&& final(self).live() == old(self).live().insert(k@, final(self).live()[k@])
                },
                Err(e) => {
                    &&& final(self).order() == old(self).order()
                    &&& final(self).versions() == old(self).versions()
                    &&& final(self).capacity_spec() == old(self).capacity_spec()
                    &&& final(self).live() == old(self).live()
                    &&& exists|k: InnerKey| f.ensures((k,), Err(e))
                },
            },
    ;

    /// Removes a value but keeps its key reserved for `reattach`.
    fn detach(&mut self, key: InnerKey) -> (r: Option<TaggedHandle>)
        requires
            slot_state_wf(old(self).live(), old(self).detached(), old(self).capacity_spec(), old(self).versions()),
        ensures
            !old(self).live().contains_key(key@) ==> final(self).order() == old(self).order(),
            final(self).capacity_spec() == old(self).capacity_spec(),
            final(self).versions() == (if old(self).live().contains_key(key@) {
                old(self).versions().insert(key_index(key@), bumped(key_version(key@)))
            } else {
                old(self).versions()
            }),
            slot_state_wf(final(self).live(), final(self).detached(), final(self).capacity_spec(), final(self).versions()),
            r == (if old(self).live().contains_key(key@) { Some(old(self).live()[key@]) } else { None }),
            final(self).live() == old(self).live().remove(key@),
            final(self).detached() == (if old(self).live().contains_key(key@) {
                old(self).detached().insert(key@)
            } else {
                old(self).detached()
            }),
    ;

    /// Puts a value back under a detached key.
    fn reattach(&mut self, key: InnerKey, value: TaggedHandle)
        requires
            slot_state_wf(old(self).live(), old(self).detached(), old(self).capacity_spec(), old(self).versions()),
            old(self).detached().contains(key@),
        ensures
            final(self).versions() == old(self).versions().insert(key_index(key@), key_version(key@)),
            slot_state_wf(final(self).live(), final(self).detached(), final(self).capacity_spec(), final(self).versions()),
            final(self).live() == old(self).live().insert(key@, value),
            final(self).detached() == old(self).detached().remove(key@),
    ;

    /// Every live slot, each once.
    fn entries(&self) -> (r: Vec<(InnerKey, TaggedHandle)>)
        requires
            slot_state_wf(self.live(), self.detached(), self.capacity_spec(), self.versions()),
        ensures
            entry_keys(r@) == self.order(),
            lists_slots(r@, self.live()),
    ;

    /// Empties the backend, returning what it held.
    fn drain(&mut self) -> (r: Vec<(InnerKey, TaggedHandle)>)
        requires
            slot_state_wf(old(self).live(), old(self).detached(), old(self).capacity_spec(), old(self).versions()),
        ensures
            final(self).versions() == retire(old(self).versions(), old(self).live().dom()),
            slot_state_wf(final(self).live(), final(self).detached(), final(self).capacity_spec(), final(self).versions()),
            lists_slots(r@, old(self).live()),
            final(self).live() == no_live_slots(),
            final(self).detached() == old(self).detached(),
    ;

    /// Consumes the backend into its live slots.
    fn into_pairs(self) -> (r: Vec<(InnerKey, TaggedHandle)>)
        requires
            slot_state_wf(self.live(), self.detached(), self.capacity_spec(), self.versions()),
        ensures
            lists_slots(r@, self.live()),
    ;
}

// ─── slotmap::SlotMap ────────────────────────────────────────────────────────

/// A `slotmap::SlotMap` of [`TaggedHandle`]s (sparse storage), held in a
/// private field; the functions below are its interface.
#[verifier::external_body]
pub struct SparseSlots {
    map: SlotMap<DefaultKey, TaggedHandle>,
}

/// The live slots of a `SlotMap`: key (as `KeyData::as_ffi`) to value.
pub uninterp spec fn slot_map_live(m: SparseSlots) -> Map<u64, TaggedHandle>;

/// The keys of a `SlotMap` that are detached and await `reattach`.
pub uninterp spec fn slot_map_detached(m: SparseSlots) -> Set<u64>;

/// The capacity of a `SlotMap`.
pub uninterp spec fn slot_map_capacity(m: SparseSlots) -> nat;

/// The version of each slot (by index, the sentinel slot 0 left out) of a
/// `SlotMap`: odd while the slot holds a value, advanced by one each
/// time a value leaves it or enters it.
pub uninterp spec fn slot_map_versions(m: SparseSlots) -> Map<u32, u32>;

/// The live keys of a `SlotMap` (as `KeyData::as_ffi`), in the order its
/// iterators visit them.
pub uninterp spec fn slot_map_order(m: SparseSlots) -> Seq<u64>;

pub open spec fn slot_map_wf(m: SparseSlots) -> bool {
    slot_state_wf(slot_map_live(m), slot_map_detached(m), slot_map_capacity(m), slot_map_versions(m))
}

/// `SlotMap::with_key`: an empty map.
#[verifier::external_body]
fn slot_map_with_key() -> (r: SparseSlots)
    ensures
        slot_map_versions(r) == no_versions(),
        slot_map_wf(r),
        slot_map_live(r) == no_live_slots(),
        slot_map_detached(r) == Set::<u64>::empty(),
{
    SparseSlots { map: SlotMap::with_key() }
}

/// `SlotMap::with_capacity_and_key`: an empty map that will not reallocate
/// before holding `capacity` values (it allocates `capacity + 1` slots, one
/// being a sentinel).
#[verifier::external_body]
fn slot_map_with_capacity_and_key(capacity: usize) -> (r: SparseSlots)
    requires
        capacity <= reserve_limit(),
    ensures
        slot_map_versions(r) == no_versions(),
        slot_map_wf(r),
        slot_map_live(r) == no_live_slots(),
        slot_map_detached(r) == Set::<u64>::empty(),
        slot_map_capacity(r) >= capacity,
{
    SparseSlots { map: SlotMap::with_capacity_and_key(capacity) }
}

/// `SlotMap::clone`: a copy with every slot cloned (stored values are
/// `Copy`), so the same live slots and the same detached keys.
#[verifier::external_body]
fn slot_map_clone(m: &SparseSlots) -> (r: SparseSlots)
    ensures
        slot_map_order(r) == slot_map_order(*m),
        slot_map_versions(r) == slot_map_versions(*m),
        slot_map_wf(r),
        slot_map_live(r) == slot_map_live(*m),
        slot_map_detached(r) == slot_map_detached(*m),
{
    SparseSlots { map: m.map.clone() }
}

/// `SlotMap::len`: the number of live values.
#[verifier::external_body]
fn slot_map_len(m: &SparseSlots) -> (r: usize)
    requires
        slot_map_wf(*m),
    ensures
        r == slot_map_live(*m).len(),
{
    m.map.len()
}

/// `SlotMap::is_empty`: whether no value is live.
#[verifier::external_body]
fn slot_map_is_empty(m: &SparseSlots) -> (r: bool)
    requires
        slot_map_wf(*m),
    ensures
        r == (slot_map_live(*m).len() == 0),
{
    m.map.is_empty()
}

/// `SlotMap::capacity`.
#[verifier::external_body]
fn slot_map_capacity_of(m: &SparseSlots) -> (r: usize)
    ensures
        r == slot_map_capacity(*m),
{
    m.map.capacity()
}

/// `SlotMap::reserve`: afterwards the map holds `len + additional` values
/// without reallocating; the contents are unchanged.
#[verifier::external_body]
fn slot_map_reserve(m: &mut SparseSlots, additional: usize)
    requires
        slot_map_wf(*old(m)),
        slot_map_capacity(*old(m)) <= reserve_limit(),
        slot_map_live(*old(m)).len() + additional <= reserve_limit(),
    ensures
        slot_map_order(*final(m)) == slot_map_order(*old(m)),
        slot_map_versions(*final(m)) == slot_map_versions(*old(m)),
        slot_map_wf(*final(m)),
        slot_map_live(*final(m)) == slot_map_live(*old(m)),
        slot_map_detached(*final(m)) == slot_map_detached(*old(m)),
        slot_map_capacity(*final(m)) >= slot_map_live(*old(m)).len() + additional,
{
    m.map.reserve(additional)
}

/// `SlotMap::try_reserve`: like `reserve`, but reports an allocation failure
/// instead of panicking; the contents are unchanged either way. When the
/// capacity already suffices, its slot buffer needs no growth, so nothing is
/// allocated and it succeeds.
#[verifier::external_body]
fn slot_map_try_reserve(m: &mut SparseSlots, additional: usize) -> (r: Result<(), TryReserveError>)
    requires
        slot_map_wf(*old(m)),
        slot_map_live(*old(m)).len() + additional <= usize::MAX,
    ensures
        slot_map_order(*final(m)) == slot_map_order(*old(m)),
        slot_map_versions(*final(m)) == slot_map_versions(*old(m)),
        slot_map_wf(*final(m)),
        slot_map_live(*final(m)) == slot_map_live(*old(m)),
        slot_map_detached(*final(m)) == slot_map_detached(*old(m)),
        r is Ok ==> slot_map_capacity(*final(m)) >= slot_map_live(*old(m)).len() + additional,
        slot_map_capacity(*old(m)) >= slot_map_live(*old(m)).len() + additional ==> r is Ok
            && slot_map_capacity(*final(m)) == slot_map_capacity(*old(m)),
{
    m.map.try_reserve(additional)
}

/// `SlotMap::clear`: removes every live value; detached keys stay detached
/// and the allocation is kept.
#[verifier::external_body]
fn slot_map_clear(m: &mut SparseSlots)
    requires
        slot_map_wf(*old(m)),
    ensures
        slot_map_versions(*final(m)) == retire(slot_map_versions(*old(m)), slot_map_live(*old(m)).dom()),
        slot_map_wf(*final(m)),
        slot_map_live(*final(m)) == no_live_slots(),
        slot_map_detached(*final(m)) == slot_map_detached(*old(m)),
        slot_map_capacity(*final(m)) == slot_map_capacity(*old(m)),
{
    m.map.clear()
}

/// `SlotMap::contains_key`: whether the key names a live value.
#[verifier::external_body]
fn slot_map_contains_key(m: &SparseSlots, key: InnerKey) -> (r: bool)
    ensures
        r == slot_map_live(*m).contains_key(key@),
{
    m.map.contains_key(DefaultKey::from(KeyData::from_ffi(key.as_ffi())))
}

/// `SlotMap::get`: the value under a live key.
#[verifier::external_body]
fn slot_map_get(m: &SparseSlots, key: InnerKey) -> (r: Option<&TaggedHandle>)
    ensures
        r == (if slot_map_live(*m).contains_key(key@) { Some(&slot_map_live(*m)[key@]) } else { None }),
{
    m.map.get(DefaultKey::from(KeyData::from_ffi(key.as_ffi())))
}

/// `SlotMap::get_mut`: mutable access to the value under a live key; the
/// map changes only by what is written through the reference.
#[verifier::external_body]
fn slot_map_get_mut(m: &mut SparseSlots, key: InnerKey) -> (r: Option<&mut TaggedHandle>)
    requires
        slot_map_wf(*old(m)),
    ensures
        slot_map_order(*final(m)) == slot_map_order(*old(m)),
        slot_map_versions(*final(m)) == slot_map_versions(*old(m)),
        slot_map_wf(*final(m)),
        slot_map_detached(*final(m)) == slot_map_detached(*old(m)),
        slot_map_capacity(*final(m)) == slot_map_capacity(*old(m)),
        r is Some == slot_map_live(*old(m)).contains_key(key@),
        r matches Some(v) ==> *v == slot_map_live(*old(m))[key@]
            && slot_map_live(*final(m)) == slot_map_live(*old(m)).insert(key@, *final(v)),
        r is None ==> slot_map_live(*final(m)) == slot_map_live(*old(m)),
{
    m.map.get_mut(DefaultKey::from(KeyData::from_ffi(key.as_ffi())))
}

/// `SlotMap::get_disjoint_mut`: mutable references to the values under
/// `keys`, or `None` if a key is not live or two keys name the same slot;
/// each value is reached through its handle.
#[verifier::external_body]
fn slot_map_get_disjoint_mut<K: SlotKey, const N: usize>(m: &mut SparseSlots, keys: [K; N]) -> (r: Option<[&mut u64; N]>)
    requires
        slot_map_wf(*old(m)),
    ensures
        slot_map_order(*final(m)) == slot_map_order(*old(m)),
        slot_map_versions(*final(m)) == slot_map_versions(*old(m)),
        slot_map_wf(*final(m)),
        slot_map_detached(*final(m)) == slot_map_detached(*old(m)),
        slot_map_capacity(*final(m)) == slot_map_capacity(*old(m)),
        r is Some == live_and_disjoint(slot_map_live(*old(m)), keys@),
        r matches Some(refs) ==> (forall|i: int| 0 <= i < N ==> *(#[trigger] refs[i]) == slot_map_live(*old(m))[keys[i].backing_spec()@].pointer())
            && slot_map_live(*final(m)) == with_handles(slot_map_live(*old(m)), keys@, Seq::new(N as nat, |i: int| *final(refs[i]))),
        r is None ==> slot_map_live(*final(m)) == slot_map_live(*old(m)),
{
    m.map.get_disjoint_mut(keys.map(|k: K| DefaultKey::from(KeyData::from_ffi(k.backing().as_ffi()))))
        .map(|refs| refs.map(|p: &mut TaggedHandle| p.inner_mut()))
}

/// `SlotMap::iter_mut`: visits every live slot once, handing out a mutable
/// reference to each value, reached here through its handle.
#[verifier::external_body]
fn slot_map_iter_mut<O: ?Sized>(m: &mut SparseSlots) -> (r: Vec<(CastKey<O>, &mut u64)>)
    requires
        slot_map_wf(*old(m)),
    ensures
        slot_map_order(*final(m)) == slot_map_order(*old(m)),
        key_bits(keys_of_refs(r@)) == slot_map_order(*old(m)),
        slot_map_versions(*final(m)) == slot_map_versions(*old(m)),
        slot_map_wf(*final(m)),
        slot_map_detached(*final(m)) == slot_map_detached(*old(m)),
        slot_map_capacity(*final(m)) == slot_map_capacity(*old(m)),
        lists_handle_refs(r@, slot_map_live(*old(m))),
        slot_map_live(*final(m)) == with_handles(slot_map_live(*old(m)), keys_of_refs(r@), Seq::new(r@.len(), |i: int| *final(r@[i].1))),
{
    m.map.iter_mut().map(|(k, v)| {
        let key = CastKey::from_raw_parts(InnerKey::from_bits(k.data().as_ffi()), v.concrete_type_id());
        (key, v.inner_mut())
    }).collect()
}

/// `SlotMap::values_mut`: visits every live slot once, handing out a
/// mutable reference to each value, reached here through its handle.
#[verifier::external_body]
fn slot_map_values_mut(m: &mut SparseSlots) -> (r: Vec<&mut u64>)
    requires
        slot_map_wf(*old(m)),
    ensures
        slot_map_order(*final(m)) == slot_map_order(*old(m)),
        slot_map_versions(*final(m)) == slot_map_versions(*old(m)),
        slot_map_wf(*final(m)),
        slot_map_detached(*final(m)) == slot_map_detached(*old(m)),
        slot_map_capacity(*final(m)) == slot_map_capacity(*old(m)),
        value_refs_written(r@, slot_map_live(*old(m)), slot_map_live(*final(m)), Seq::new(r@.len(), |i: int| *final(r@[i]))),
{
    m.map.values_mut().map(|v: &mut TaggedHandle| v.inner_mut()).collect()
}

/// `SlotMap::retain`: calls `f` once on each live slot and removes those for
/// which it returns `false`; detached keys and the allocation are untouched.
#[verifier::external_body]
fn slot_map_retain<F>(m: &mut SparseSlots, f: F)
    where F: Fn(InnerKey, TaggedHandle) -> bool,
    requires
        slot_map_wf(*old(m)),
        forall|k: InnerKey, v: TaggedHandle| #[trigger] f.requires((k, v)),
    ensures
        slot_map_versions(*final(m)) == retire(
            slot_map_versions(*old(m)),
            slot_map_live(*old(m)).dom().difference(slot_map_live(*final(m)).dom()),
        ),
        slot_map_wf(*final(m)),
        slot_map_detached(*final(m)) == slot_map_detached(*old(m)),
        slot_map_live(*final(m)).submap_of(slot_map_live(*old(m))),
        forall|k: InnerKey| #[trigger] slot_map_live(*old(m)).contains_key(k@) ==> f.ensures(
            (k, slot_map_live(*old(m))[k@]),
            slot_map_live(*final(m)).contains_key(k@),
        ),
{
    m.map.retain(|k: DefaultKey, v: &mut TaggedHandle| f(InnerKey::from_bits(k.data().as_ffi()), *v))
}

/// `SlotMap::remove`: takes the value out of a live key's slot; the key
/// stops being live.
#[verifier::external_body]
fn slot_map_remove(m: &mut SparseSlots, key: InnerKey) -> (r: Option<TaggedHandle>)
    requires
        slot_map_wf(*old(m)),
    ensures
        !slot_map_live(*old(m)).contains_key(key@) ==> slot_map_order(*final(m)) == slot_map_order(*old(m)),
        slot_map_capacity(*final(m)) == slot_map_capacity(*old(m)),
        slot_map_versions(*final(m)) == (if slot_map_live(*old(m)).contains_key(key@) {
            slot_map_versions(*old(m)).insert(key_index(key@), bumped(key_version(key@)))
        } else {
            slot_map_versions(*old(m))
        }),
        slot_map_wf(*final(m)),
        r == (if slot_map_live(*old(m)).contains_key(key@) { Some(slot_map_live(*old(m))[key@]) } else { None }),
        slot_map_live(*final(m)) == slot_map_live(*old(m)).remove(key@),
        slot_map_detached(*final(m)) == slot_map_detached(*old(m)),
{
    m.map.remove(DefaultKey::from(KeyData::from_ffi(key.as_ffi())))
}

/// `SlotMap::try_insert_with_key`: calls `f` once with the key the value will
/// get (neither live nor detached before), and stores what it returns; if
/// `f` returns `Err`, the map is untouched.
#[verifier::external_body]
fn slot_map_try_insert_with_key<F, E>(m: &mut SparseSlots, f: F) -> (r: Result<InnerKey, E>)
    where F: FnOnce(InnerKey) -> Result<TaggedHandle, E>,
    requires
        slot_map_wf(*old(m)),
        slot_map_live(*old(m)).len() + slot_map_detached(*old(m)).len() < max_slots(),
        forall|k: InnerKey| #[trigger] f.requires((k,)),
    ensures
        slot_map_wf(*final(m)),
        slot_map_detached(*final(m)) == slot_map_detached(*old(m)),
        match r {
            Ok(k) => {
                &&& versions_after_issue(
                    slot_map_versions(*old(m)),
                    slot_map_versions(*final(m)),
                    k@,
                    slot_map_live(*old(m)).len() + slot_map_detached(*old(m)).len(),
                )
                &&& !slot_map_live(*old(m)).contains_key(k@)
                &&& !slot_map_detached(*old(m)).contains(k@)
                &&& f.ensures((k,), Ok(slot_map_live(*final(m))[k@]))
                &&& slot_map_live(*final(m)) == slot_map_live(*old(m)).insert(k@, slot_map_live(*final(m))[k@])
            },
            Err(e) => {
                &&& slot_map_order(*final(m)) == slot_map_order(*old(m))
                &&& slot_map_versions(*final(m)) == slot_map_versions(*old(m))
                &&& slot_map_capacity(*final(m)) == slot_map_capacity(*old(m))
                &&& slot_map_live(*final(m)) == slot_map_live(*old(m))
                &&& exists|k: InnerKey| f.ensures((k,), Err(e))
            },
        },
{
    m.map.try_insert_with_key(|k: DefaultKey| f(InnerKey::from_bits(k.data().as_ffi())))
        .map(|k: DefaultKey| InnerKey::from_bits(k.data().as_ffi()))
}

/// `SlotMap::detach`: takes the value out of a live key's slot and keeps the
/// key reserved for `reattach`.
#[verifier::external_body]
fn slot_map_detach(m: &mut SparseSlots, key: InnerKey) -> (r: Option<TaggedHandle>)
    requires
        slot_map_wf(*old(m)),
    ensures
        !slot_map_live(*old(m)).contains_key(key@) ==> slot_map_order(*final(m)) == slot_map_order(*old(m)),
        slot_map_capacity(*final(m)) == slot_map_capacity(*old(m)),
        slot_map_versions(*final(m)) == (if slot_map_live(*old(m)).contains_key(key@) {
            slot_map_versions(*old(m)).insert(key_index(key@), bumped(key_version(key@)))
        } else {
            slot_map_versions(*old(m))
        }),
        slot_map_wf(*final(m)),
        r == (if slot_map_live(*old(m)).contains_key(key@) { Some(slot_map_live(*old(m))[key@]) } else { None }),
        slot_map_live(*final(m)) == slot_map_live(*old(m)).remove(key@),
        slot_map_detached(*final(m)) == (if slot_map_live(*old(m)).contains_key(key@) {
            slot_map_detached(*old(m)).insert(key@)
        } else {
            slot_map_detached(*old(m))
        }),
{
    m.map.detach(DefaultKey::from(KeyData::from_ffi(key.as_ffi())))
}

/// `SlotMap::reattach`: stores `value` under a detached key, which becomes
/// live again. (It panics on a key that is not detached, which `requires`
/// rules out.)
#[verifier::external_body]
fn slot_map_reattach(m: &mut SparseSlots, key: InnerKey, value: TaggedHandle)
    requires
        slot_map_wf(*old(m)),
        slot_map_detached(*old(m)).contains(key@),
    ensures
        slot_map_versions(*final(m)) == slot_map_versions(*old(m)).insert(key_index(key@), key_version(key@)),
        slot_map_wf(*final(m)),
        slot_map_live(*final(m)) == slot_map_live(*old(m)).insert(key@, value),
        slot_map_detached(*final(m)) == slot_map_detached(*old(m)).remove(key@),
{
    m.map.reattach(DefaultKey::from(KeyData::from_ffi(key.as_ffi())), value)
}

/// `SlotMap::iter`: visits every live slot once.
#[verifier::external_body]
fn slot_map_iter(m: &SparseSlots) -> (r: Vec<(InnerKey, TaggedHandle)>)
    requires
        slot_map_wf(*m),
    ensures
        entry_keys(r@) == slot_map_order(*m),
        lists_slots(r@, slot_map_live(*m)),
{
    m.map.iter().map(|(k, v)| (InnerKey::from_bits(k.data().as_ffi()), *v)).collect()
}

/// `SlotMap::drain`: yields every live slot once and leaves none live;
/// detached keys stay detached.
#[verifier::external_body]
fn slot_map_drain(m: &mut SparseSlots) -> (r: Vec<(InnerKey, TaggedHandle)>)
    requires
        slot_map_wf(*old(m)),
    ensures
        slot_map_versions(*final(m)) == retire(slot_map_versions(*old(m)), slot_map_live(*old(m)).dom()),
        slot_map_wf(*final(m)),
        lists_slots(r@, slot_map_live(*old(m))),
        slot_map_live(*final(m)) == no_live_slots(),
        slot_map_detached(*final(m)) == slot_map_detached(*old(m)),
{
    m.map.drain().map(|(k, v)| (InnerKey::from_bits(k.data().as_ffi()), v)).collect()
}

/// `SlotMap::into_iter`: yields every live slot once.
#[verifier::external_body]
fn slot_map_into_iter(m: SparseSlots) -> (r: Vec<(InnerKey, TaggedHandle)>)
    requires
        slot_map_wf(m),
    ensures
        lists_slots(r@, slot_map_live(m)),
{
    m.map.into_iter().map(|(k, v)| (InnerKey::from_bits(k.data().as_ffi()), v)).collect()
}

impl SlotMapTrait for SparseSlots {
    open spec fn live(&self) -> Map<u64, TaggedHandle> {
        slot_map_live(*self)
    }

    open spec fn detached(&self) -> Set<u64> {
        slot_map_detached(*self)
    }

    open spec fn capacity_spec(&self) -> nat {
        slot_map_capacity(*self)
    }

    open spec fn versions(&self) -> Map<u32, u32> {
        slot_map_versions(*self)
    }

    open spec fn order(&self) -> Seq<u64> {
        slot_map_order(*self)
    }

    /// The capacity already holds `additional` more values.
    open spec fn reserve_fits(&self, additional: nat) -> bool {
        slot_map_capacity(*self) >= slot_map_live(*self).len() + additional
    }

    fn empty() -> (r: Self) {
        slot_map_with_key()
    }

    fn with_capacity(capacity: usize) -> (r: Self) {
        slot_map_with_capacity_and_key(capacity)
    }

    fn duplicate(&self) -> (r: Self) {
        slot_map_clone(self)
    }

    fn len(&self) -> (r: usize) {
        slot_map_len(self)
    }

    fn is_empty(&self) -> (r: bool) {
        slot_map_is_empty(self)
    }

    fn capacity(&self) -> (r: usize) {
        slot_map_capacity_of(self)
    }

    fn reserve(&mut self, additional: usize) {
        slot_map_reserve(self, additional)
    }

    fn try_reserve(&mut self, additional: usize) -> (r: Result<(), TryReserveError>) {
        slot_map_try_reserve(self, additional)
    }

    fn clear(&mut self) {
        slot_map_clear(self)
    }

    fn contains_key(&self, key: InnerKey) -> (r: bool) {
        slot_map_contains_key(self, key)
    }

    fn get(&self, key: InnerKey) -> (r: Option<&TaggedHandle>) {
        slot_map_get(self, key)
    }

    fn get_mut(&mut self, key: InnerKey) -> (r: Option<&mut TaggedHandle>) {
        slot_map_get_mut(self, key)
    }

    fn get_disjoint_mut<K: SlotKey, const N: usize>(&mut self, keys: [K; N]) -> (r: Option<[&mut u64; N]>) {
        slot_map_get_disjoint_mut(self, keys)
    }

    fn iter_mut<O: ?Sized>(&mut self) -> (r: Vec<(CastKey<O>, &mut u64)>) {
        slot_map_iter_mut(self)
    }

    fn values_mut(&mut self) -> (r: Vec<&mut u64>) {
        slot_map_values_mut(self)
    }

    fn retain<F>(&mut self, f: F)
        where F: Fn(InnerKey, TaggedHandle) -> bool,
    {
        slot_map_retain(self, f)
    }

    fn remove(&mut self, key: InnerKey) -> (r: Option<TaggedHandle>) {
        slot_map_remove(self, key)
    }

    fn try_insert_with_key<F, E>(&mut self, f: F) -> (r: Result<InnerKey, E>)
        where F: FnOnce(InnerKey) -> Result<TaggedHandle, E>,
    {
        slot_map_try_insert_with_key(self, f)
    }

    fn detach(&mut self, key: InnerKey) -> (r: Option<TaggedHandle>) {
        slot_map_detach(self, key)
    }

    fn reattach(&mut self, key: InnerKey, value: TaggedHandle) {
        slot_map_reattach(self, key, value)
    }

    fn entries(&self) -> (r: Vec<(InnerKey, TaggedHandle)>) {
        slot_map_iter(self)
    }

    fn drain(&mut self) -> (r: Vec<(InnerKey, TaggedHandle)>) {
        slot_map_drain(self)
    }

    fn into_pairs(self) -> (r: Vec<(InnerKey, TaggedHandle)>) {
        slot_map_into_iter(self)
    }
}

// ─── slotmap::DenseSlotMap ───────────────────────────────────────────────────

/// A `slotmap::DenseSlotMap` of [`TaggedHandle`]s (values kept contiguous),
/// held in a private field; the functions below are its interface.
#[verifier::external_body]
pub struct DenseSlots {
    map: DenseSlotMap<DefaultKey, TaggedHandle>,
}

/// The live slots of a `DenseSlotMap`: key (as `KeyData::as_ffi`) to value.
pub uninterp spec fn dense_slot_map_live(m: DenseSlots) -> Map<u64, TaggedHandle>;

/// The keys of a `DenseSlotMap` that are detached and await `reattach`.
pub uninterp spec fn dense_slot_map_detached(m: DenseSlots) -> Set<u64>;

/// The capacity of a `DenseSlotMap`.
pub uninterp spec fn dense_slot_map_capacity(m: DenseSlots) -> nat;

/// The version of each slot (by index, the sentinel slot 0 left out) of a
/// `DenseSlotMap`: odd while the slot holds a value, advanced by one each
/// time a value leaves it or enters it.
pub uninterp spec fn dense_slot_map_versions(m: DenseSlots) -> Map<u32, u32>;

/// The live keys of a `DenseSlotMap` (as `KeyData::as_ffi`), in the order its
/// iterators visit them.
pub uninterp spec fn dense_slot_map_order(m: DenseSlots) -> Seq<u64>;

pub open spec fn dense_slot_map_wf(m: DenseSlots) -> bool {
    slot_state_wf(dense_slot_map_live(m), dense_slot_map_detached(m), dense_slot_map_capacity(m), dense_slot_map_versions(m))
}

/// `DenseSlotMap::with_key`: an empty map.
#[verifier::external_body]
fn dense_slot_map_with_key() -> (r: DenseSlots)
    ensures
        dense_slot_map_versions(r) == no_versions(),
        dense_slot_map_wf(r),
        dense_slot_map_live(r) == no_live_slots(),
        dense_slot_map_detached(r) == Set::<u64>::empty(),
{
    DenseSlots { map: DenseSlotMap::with_key() }
}

/// `DenseSlotMap::with_capacity_and_key`: an empty map that will not reallocate
/// before holding `capacity` values (its key and value buffers are
/// allocated with that capacity).
#[verifier::external_body]
fn dense_slot_map_with_capacity_and_key(capacity: usize) -> (r: DenseSlots)
    requires
        capacity <= reserve_limit(),
    ensures
        dense_slot_map_versions(r) == no_versions(),
        dense_slot_map_wf(r),
        dense_slot_map_live(r) == no_live_slots(),
        dense_slot_map_detached(r) == Set::<u64>::empty(),
        dense_slot_map_capacity(r) >= capacity,
{
    DenseSlots { map: DenseSlotMap::with_capacity_and_key(capacity) }
}

/// `DenseSlotMap::clone`: a copy with every slot cloned (stored values are
/// `Copy`), so the same live slots and the same detached keys.
#[verifier::external_body]
fn dense_slot_map_clone(m: &DenseSlots) -> (r: DenseSlots)
    ensures
        dense_slot_map_order(r) == dense_slot_map_order(*m),
        dense_slot_map_versions(r) == dense_slot_map_versions(*m),
        dense_slot_map_wf(r),
        dense_slot_map_live(r) == dense_slot_map_live(*m),
        dense_slot_map_detached(r) == dense_slot_map_detached(*m),
{
    DenseSlots { map: m.map.clone() }
}

/// `DenseSlotMap::len`: the number of live values.
#[verifier::external_body]
fn dense_slot_map_len(m: &DenseSlots) -> (r: usize)
    requires
        dense_slot_map_wf(*m),
    ensures
        r == dense_slot_map_live(*m).len(),
{
    m.map.len()
}

/// `DenseSlotMap::is_empty`: whether no value is live.
#[verifier::external_body]
fn dense_slot_map_is_empty(m: &DenseSlots) -> (r: bool)
    requires
        dense_slot_map_wf(*m),
    ensures
        r == (dense_slot_map_live(*m).len() == 0),
{
    m.map.is_empty()
}

/// `DenseSlotMap::capacity`.
#[verifier::external_body]
fn dense_slot_map_capacity_of(m: &DenseSlots) -> (r: usize)
    ensures
        r == dense_slot_map_capacity(*m),
{
    m.map.capacity()
}

/// `DenseSlotMap::reserve`: afterwards the map holds `len + additional` values
/// without reallocating; the contents are unchanged.
#[verifier::external_body]
fn dense_slot_map_reserve(m: &mut DenseSlots, additional: usize)
    requires
        dense_slot_map_wf(*old(m)),
        dense_slot_map_capacity(*old(m)) <= reserve_limit(),
        dense_slot_map_live(*old(m)).len() + additional <= reserve_limit(),
    ensures
        dense_slot_map_order(*final(m)) == dense_slot_map_order(*old(m)),
        dense_slot_map_versions(*final(m)) == dense_slot_map_versions(*old(m)),
        dense_slot_map_wf(*final(m)),
        dense_slot_map_live(*final(m)) == dense_slot_map_live(*old(m)),
        dense_slot_map_detached(*final(m)) == dense_slot_map_detached(*old(m)),
        dense_slot_map_capacity(*final(m)) >= dense_slot_map_live(*old(m)).len() + additional,
{
    m.map.reserve(additional)
}

/// `DenseSlotMap::try_reserve`: like `reserve`, but reports an allocation failure
/// instead of panicking; the contents are unchanged either way. Reserving
/// room for no more values grows none of its buffers, so it succeeds.
#[verifier::external_body]
fn dense_slot_map_try_reserve(m: &mut DenseSlots, additional: usize) -> (r: Result<(), TryReserveError>)
    requires
        dense_slot_map_wf(*old(m)),
        dense_slot_map_live(*old(m)).len() + additional <= usize::MAX,
    ensures
        dense_slot_map_order(*final(m)) == dense_slot_map_order(*old(m)),
        dense_slot_map_versions(*final(m)) == dense_slot_map_versions(*old(m)),
        dense_slot_map_wf(*final(m)),
        dense_slot_map_live(*final(m)) == dense_slot_map_live(*old(m)),
        dense_slot_map_detached(*final(m)) == dense_slot_map_detached(*old(m)),
        r is Ok ==> dense_slot_map_capacity(*final(m)) >= dense_slot_map_live(*old(m)).len() + additional,
        additional == 0 ==> r is Ok && dense_slot_map_capacity(*final(m)) == dense_slot_map_capacity(*old(m)),
{
    m.map.try_reserve(additional)
}

/// `DenseSlotMap::clear`: removes every live value; detached keys stay detached
/// and the allocation is kept.
#[verifier::external_body]
fn dense_slot_map_clear(m: &mut DenseSlots)
    requires
        dense_slot_map_wf(*old(m)),
    ensures
        dense_slot_map_versions(*final(m)) == retire(dense_slot_map_versions(*old(m)), dense_slot_map_live(*old(m)).dom()),
        dense_slot_map_wf(*final(m)),
        dense_slot_map_live(*final(m)) == no_live_slots(),
        dense_slot_map_detached(*final(m)) == dense_slot_map_detached(*old(m)),
        dense_slot_map_capacity(*final(m)) == dense_slot_map_capacity(*old(m)),
{
    m.map.clear()
}

/// `DenseSlotMap::contains_key`: whether the key names a live value.
#[verifier::external_body]
fn dense_slot_map_contains_key(m: &DenseSlots, key: InnerKey) -> (r: bool)
    ensures
        r == dense_slot_map_live(*m).contains_key(key@),
{
    m.map.contains_key(DefaultKey::from(KeyData::from_ffi(key.as_ffi())))
}

/// `DenseSlotMap::get`: the value under a live key.
#[verifier::external_body]
fn dense_slot_map_get(m: &DenseSlots, key: InnerKey) -> (r: Option<&TaggedHandle>)
    ensures
        r == (if dense_slot_map_live(*m).contains_key(key@) { Some(&dense_slot_map_live(*m)[key@]) } else { None }),
{
    m.map.get(DefaultKey::from(KeyData::from_ffi(key.as_ffi())))
}

/// `DenseSlotMap::get_mut`: mutable access to the value under a live key; the
/// map changes only by what is written through the reference.
#[verifier::external_body]
fn dense_slot_map_get_mut(m: &mut DenseSlots, key: InnerKey) -> (r: Option<&mut TaggedHandle>)
    requires
        dense_slot_map_wf(*old(m)),
    ensures
        dense_slot_map_order(*final(m)) == dense_slot_map_order(*old(m)),
        dense_slot_map_versions(*final(m)) == dense_slot_map_versions(*old(m)),
        dense_slot_map_wf(*final(m)),
        dense_slot_map_detached(*final(m)) == dense_slot_map_detached(*old(m)),
        dense_slot_map_capacity(*final(m)) == dense_slot_map_capacity(*old(m)),
        r is Some == dense_slot_map_live(*old(m)).contains_key(key@),
        r matches Some(v) ==> *v == dense_slot_map_live(*old(m))[key@]
            && dense_slot_map_live(*final(m)) == dense_slot_map_live(*old(m)).insert(key@, *final(v)),
        r is None ==> dense_slot_map_live(*final(m)) == dense_slot_map_live(*old(m)),
{
    m.map.get_mut(DefaultKey::from(KeyData::from_ffi(key.as_ffi())))
}

/// `DenseSlotMap::get_disjoint_mut`: mutable references to the values under
/// `keys`, or `None` if a key is not live or two keys name the same slot;
/// each value is reached through its handle.
#[verifier::external_body]
fn dense_slot_map_get_disjoint_mut<K: SlotKey, const N: usize>(m: &mut DenseSlots, keys: [K; N]) -> (r: Option<[&mut u64; N]>)
    requires
        dense_slot_map_wf(*old(m)),
    ensures
        dense_slot_map_order(*final(m)) == dense_slot_map_order(*old(m)),
        dense_slot_map_versions(*final(m)) == dense_slot_map_versions(*old(m)),
        dense_slot_map_wf(*final(m)),
        dense_slot_map_detached(*final(m)) == dense_slot_map_detached(*old(m)),
        dense_slot_map_capacity(*final(m)) == dense_slot_map_capacity(*old(m)),
        r is Some == live_and_disjoint(dense_slot_map_live(*old(m)), keys@),
        r matches Some(refs) ==> (forall|i: int| 0 <= i < N ==> *(#[trigger] refs[i]) == dense_slot_map_live(*old(m))[keys[i].backing_spec()@].pointer())
            && dense_slot_map_live(*final(m)) == with_handles(dense_slot_map_live(*old(m)), keys@, Seq::new(N as nat, |i: int| *final(refs[i]))),
        r is None ==> dense_slot_map_live(*final(m)) == dense_slot_map_live(*old(m)),
{
    m.map.get_disjoint_mut(keys.map(|k: K| DefaultKey::from(KeyData::from_ffi(k.backing().as_ffi()))))
        .map(|refs| refs.map(|p: &mut TaggedHandle| p.inner_mut()))
}

/// `DenseSlotMap::iter_mut`: visits every live slot once, handing out a mutable
/// reference to each value, reached here through its handle.
#[verifier::external_body]
fn dense_slot_map_iter_mut<O: ?Sized>(m: &mut DenseSlots) -> (r: Vec<(CastKey<O>, &mut u64)>)
    requires
        dense_slot_map_wf(*old(m)),
    ensures
        dense_slot_map_order(*final(m)) == dense_slot_map_order(*old(m)),
        key_bits(keys_of_refs(r@)) == dense_slot_map_order(*old(m)),
        dense_slot_map_versions(*final(m)) == dense_slot_map_versions(*old(m)),
        dense_slot_map_wf(*final(m)),
        dense_slot_map_detached(*final(m)) == dense_slot_map_detached(*old(m)),
        dense_slot_map_capacity(*final(m)) == dense_slot_map_capacity(*old(m)),
        lists_handle_refs(r@, dense_slot_map_live(*old(m))),
        dense_slot_map_live(*final(m)) == with_handles(dense_slot_map_live(*old(m)), keys_of_refs(r@), Seq::new(r@.len(), |i: int| *final(r@[i].1))),
{
    m.map.iter_mut().map(|(k, v)| {
        let key = CastKey::from_raw_parts(InnerKey::from_bits(k.data().as_ffi()), v.concrete_type_id());
        (key, v.inner_mut())
    }).collect()
}

/// `DenseSlotMap::values_mut`: visits every live slot once, handing out a
/// mutable reference to each value, reached here through its handle.
#[verifier::external_body]
fn dense_slot_map_values_mut(m: &mut DenseSlots) -> (r: Vec<&mut u64>)
    requires
        dense_slot_map_wf(*old(m)),
    ensures
        dense_slot_map_order(*final(m)) == dense_slot_map_order(*old(m)),
        dense_slot_map_versions(*final(m)) == dense_slot_map_versions(*old(m)),
        dense_slot_map_wf(*final(m)),
        dense_slot_map_detached(*final(m)) == dense_slot_map_detached(*old(m)),
        dense_slot_map_capacity(*final(m)) == dense_slot_map_capacity(*old(m)),
        value_refs_written(r@, dense_slot_map_live(*old(m)), dense_slot_map_live(*final(m)), Seq::new(r@.len(), |i: int| *final(r@[i]))),
{
    m.map.values_mut().map(|v: &mut TaggedHandle| v.inner_mut()).collect()
}

/// `DenseSlotMap::retain`: calls `f` once on each live slot and removes those for
/// which it returns `false`; detached keys and the allocation are untouched.
#[verifier::external_body]
fn dense_slot_map_retain<F>(m: &mut DenseSlots, f: F)
    where F: Fn(InnerKey, TaggedHandle) -> bool,
    requires
        dense_slot_map_wf(*old(m)),
        forall|k: InnerKey, v: TaggedHandle| #[trigger] f.requires((k, v)),
    ensures
        dense_slot_map_versions(*final(m)) == retire(
            dense_slot_map_versions(*old(m)),
            dense_slot_map_live(*old(m)).dom().difference(dense_slot_map_live(*final(m)).dom()),
        ),
        dense_slot_map_wf(*final(m)),
        dense_slot_map_detached(*final(m)) == dense_slot_map_detached(*old(m)),
        dense_slot_map_live(*final(m)).submap_of(dense_slot_map_live(*old(m))),
        forall|k: InnerKey| #[trigger] dense_slot_map_live(*old(m)).contains_key(k@) ==> f.ensures(
            (k, dense_slot_map_live(*old(m))[k@]),
            dense_slot_map_live(*final(m)).contains_key(k@),
        ),
{
    m.map.retain(|k: DefaultKey, v: &mut TaggedHandle| f(InnerKey::from_bits(k.data().as_ffi()), *v))
}

/// `DenseSlotMap::remove`: takes the value out of a live key's slot; the key
/// stops being live.
#[verifier::external_body]
fn dense_slot_map_remove(m: &mut DenseSlots, key: InnerKey) -> (r: Option<TaggedHandle>)
    requires
        dense_slot_map_wf(*old(m)),
    ensures
        !dense_slot_map_live(*old(m)).contains_key(key@) ==> dense_slot_map_order(*final(m)) == dense_slot_map_order(*old(m)),
        dense_slot_map_capacity(*final(m)) == dense_slot_map_capacity(*old(m)),
        dense_slot_map_versions(*final(m)) == (if dense_slot_map_live(*old(m)).contains_key(key@) {
            dense_slot_map_versions(*old(m)).insert(key_index(key@), bumped(key_version(key@)))
        } else {
            dense_slot_map_versions(*old(m))
        }),
        dense_slot_map_wf(*final(m)),
        r == (if dense_slot_map_live(*old(m)).contains_key(key@) { Some(dense_slot_map_live(*old(m))[key@]) } else { None }),
        dense_slot_map_live(*final(m)) == dense_slot_map_live(*old(m)).remove(key@),
        dense_slot_map_detached(*final(m)) == dense_slot_map_detached(*old(m)),
{
    m.map.remove(DefaultKey::from(KeyData::from_ffi(key.as_ffi())))
}

/// `DenseSlotMap::try_insert_with_key`: calls `f` once with the key the value will
/// get (neither live nor detached before), and stores what it returns; if
/// `f` returns `Err`, the map is untouched.
#[verifier::external_body]
fn dense_slot_map_try_insert_with_key<F, E>(m: &mut DenseSlots, f: F) -> (r: Result<InnerKey, E>)
    where F: FnOnce(InnerKey) -> Result<TaggedHandle, E>,
    requires
        dense_slot_map_wf(*old(m)),
        dense_slot_map_live(*old(m)).len() + dense_slot_map_detached(*old(m)).len() < max_slots(),
        forall|k: InnerKey| #[trigger] f.requires((k,)),
    ensures
        dense_slot_map_wf(*final(m)),
        dense_slot_map_detached(*final(m)) == dense_slot_map_detached(*old(m)),
        match r {
            Ok(k) => {
                &&& versions_after_issue(
                    dense_slot_map_versions(*old(m)),
                    dense_slot_map_versions(*final(m)),
                    k@,
                    dense_slot_map_live(*old(m)).len() + dense_slot_map_detached(*old(m)).len(),
                )
                &&& !dense_slot_map_live(*old(m)).contains_key(k@)
                &&& !dense_slot_map_detached(*old(m)).contains(k@)
                &&& f.ensures((k,), Ok(dense_slot_map_live(*final(m))[k@]))
                &&& dense_slot_map_live(*final(m)) == dense_slot_map_live(*old(m)).insert(k@, dense_slot_map_live(*final(m))[k@])
            },
            Err(e) => {
                &&& dense_slot_map_order(*final(m)) == dense_slot_map_order(*old(m))
                &&& dense_slot_map_versions(*final(m)) == dense_slot_map_versions(*old(m))
                &&& dense_slot_map_capacity(*final(m)) == dense_slot_map_capacity(*old(m))
                &&& dense_slot_map_live(*final(m)) == dense_slot_map_live(*old(m))
                &&& exists|k: InnerKey| f.ensures((k,), Err(e))
            },
        },
{
    m.map.try_insert_with_key(|k: DefaultKey| f(InnerKey::from_bits(k.data().as_ffi())))
        .map(|k: DefaultKey| InnerKey::from_bits(k.data().as_ffi()))
}

/// `DenseSlotMap::detach`: takes the value out of a live key's slot and keeps the
/// key reserved for `reattach`.
#[verifier::external_body]
fn dense_slot_map_detach(m: &mut DenseSlots, key: InnerKey) -> (r: Option<TaggedHandle>)
    requires
        dense_slot_map_wf(*old(m)),
    ensures
        !dense_slot_map_live(*old(m)).contains_key(key@) ==> dense_slot_map_order(*final(m)) == dense_slot_map_order(*old(m)),
        dense_slot_map_capacity(*final(m)) == dense_slot_map_capacity(*old(m)),
        dense_slot_map_versions(*final(m)) == (if dense_slot_map_live(*old(m)).contains_key(key@) {
            dense_slot_map_versions(*old(m)).insert(key_index(key@), bumped(key_version(key@)))
        } else {
            dense_slot_map_versions(*old(m))
        }),
        dense_slot_map_wf(*final(m)),
        r == (if dense_slot_map_live(*old(m)).contains_key(key@) { Some(dense_slot_map_live(*old(m))[key@]) } else { None }),
        dense_slot_map_live(*final(m)) == dense_slot_map_live(*old(m)).remove(key@),
        dense_slot_map_detached(*final(m)) == (if dense_slot_map_live(*old(m)).contains_key(key@) {
            dense_slot_map_detached(*old(m)).insert(key@)
        } else {
            dense_slot_map_detached(*old(m))
        }),
{
    m.map.detach(DefaultKey::from(KeyData::from_ffi(key.as_ffi())))
}

/// `DenseSlotMap::reattach`: stores `value` under a detached key, which
/// becomes live again. (It panics on a key that is not detached, or when
/// `u32::MAX - 1` values are live; `requires` and the slot limit rule both
/// out.)
#[verifier::external_body]
fn dense_slot_map_reattach(m: &mut DenseSlots, key: InnerKey, value: TaggedHandle)
    requires
        dense_slot_map_wf(*old(m)),
        dense_slot_map_detached(*old(m)).contains(key@),
    ensures
        dense_slot_map_versions(*final(m)) == dense_slot_map_versions(*old(m)).insert(key_index(key@), key_version(key@)),
        dense_slot_map_wf(*final(m)),
        dense_slot_map_live(*final(m)) == dense_slot_map_live(*old(m)).insert(key@, value),
        dense_slot_map_detached(*final(m)) == dense_slot_map_detached(*old(m)).remove(key@),
{
    m.map.reattach(DefaultKey::from(KeyData::from_ffi(key.as_ffi())), value)
}

/// `DenseSlotMap::iter`: visits every live slot once.
#[verifier::external_body]
fn dense_slot_map_iter(m: &DenseSlots) -> (r: Vec<(InnerKey, TaggedHandle)>)
    requires
        dense_slot_map_wf(*m),
    ensures
        entry_keys(r@) == dense_slot_map_order(*m),
        lists_slots(r@, dense_slot_map_live(*m)),
{
    m.map.iter().map(|(k, v)| (InnerKey::from_bits(k.data().as_ffi()), *v)).collect()
}

/// `DenseSlotMap::drain`: yields every live slot once and leaves none live;
/// detached keys stay detached.
#[verifier::external_body]
fn dense_slot_map_drain(m: &mut DenseSlots) -> (r: Vec<(InnerKey, TaggedHandle)>)
    requires
        dense_slot_map_wf(*old(m)),
    ensures
        dense_slot_map_versions(*final(m)) == retire(dense_slot_map_versions(*old(m)), dense_slot_map_live(*old(m)).dom()),
        dense_slot_map_wf(*final(m)),
        lists_slots(r@, dense_slot_map_live(*old(m))),
        dense_slot_map_live(*final(m)) == no_live_slots(),
        dense_slot_map_detached(*final(m)) == dense_slot_map_detached(*old(m)),
{
    m.map.drain().map(|(k, v)| (InnerKey::from_bits(k.data().as_ffi()), v)).collect()
}

/// `DenseSlotMap::into_iter`: yields every live slot once.
#[verifier::external_body]
fn dense_slot_map_into_iter(m: DenseSlots) -> (r: Vec<(InnerKey, TaggedHandle)>)
    requires
        dense_slot_map_wf(m),
    ensures
        lists_slots(r@, dense_slot_map_live(m)),
{
    m.map.into_iter().map(|(k, v)| (InnerKey::from_bits(k.data().as_ffi()), v)).collect()
}

impl SlotMapTrait for DenseSlots {
    open spec fn live(&self) -> Map<u64, TaggedHandle> {
        dense_slot_map_live(*self)
    }

    open spec fn detached(&self) -> Set<u64> {
        dense_slot_map_detached(*self)
    }

    open spec fn capacity_spec(&self) -> nat {
        dense_slot_map_capacity(*self)
    }

    open spec fn versions(&self) -> Map<u32, u32> {
        dense_slot_map_versions(*self)
    }

    open spec fn order(&self) -> Seq<u64> {
        dense_slot_map_order(*self)
    }

    /// No more values are asked for: `capacity` reports one of the three
    /// buffers a reservation may grow, so only this case is known to need no
    /// allocation.
    open spec fn reserve_fits(&self, additional: nat) -> bool {
        additional == 0
    }

    fn empty() -> (r: Self) {
        dense_slot_map_with_key()
    }

    fn with_capacity(capacity: usize) -> (r: Self) {
        dense_slot_map_with_capacity_and_key(capacity)
    }

    fn duplicate(&self) -> (r: Self) {
        dense_slot_map_clone(self)
    }

    fn len(&self) -> (r: usize) {
        dense_slot_map_len(self)
    }

    fn is_empty(&self) -> (r: bool) {
        dense_slot_map_is_empty(self)
    }

    fn capacity(&self) -> (r: usize) {
        dense_slot_map_capacity_of(self)
    }

    fn reserve(&mut self, additional: usize) {
        dense_slot_map_reserve(self, additional)
    }

    fn try_reserve(&mut self, additional: usize) -> (r: Result<(), TryReserveError>) {
        dense_slot_map_try_reserve(self, additional)
    }

    fn clear(&mut self) {
        dense_slot_map_clear(self)
    }

    fn contains_key(&self, key: InnerKey) -> (r: bool) {
        dense_slot_map_contains_key(self, key)
    }

    fn get(&self, key: InnerKey) -> (r: Option<&TaggedHandle>) {
        dense_slot_map_get(self, key)
    }

    fn get_mut(&mut self, key: InnerKey) -> (r: Option<&mut TaggedHandle>) {
        dense_slot_map_get_mut(self, key)
    }

    fn get_disjoint_mut<K: SlotKey, const N: usize>(&mut self, keys: [K; N]) -> (r: Option<[&mut u64; N]>) {
        dense_slot_map_get_disjoint_mut(self, keys)
    }

    fn iter_mut<O: ?Sized>(&mut self) -> (r: Vec<(CastKey<O>, &mut u64)>) {
        dense_slot_map_iter_mut(self)
    }

    fn values_mut(&mut self) -> (r: Vec<&mut u64>) {
        dense_slot_map_values_mut(self)
    }

    fn retain<F>(&mut self, f: F)
        where F: Fn(InnerKey, TaggedHandle) -> bool,
    {
        dense_slot_map_retain(self, f)
    }

    fn remove(&mut self, key: InnerKey) -> (r: Option<TaggedHandle>) {
        dense_slot_map_remove(self, key)
    }

    fn try_insert_with_key<F, E>(&mut self, f: F) -> (r: Result<InnerKey, E>)
        where F: FnOnce(InnerKey) -> Result<TaggedHandle, E>,
    {
        dense_slot_map_try_insert_with_key(self, f)
    }

    fn detach(&mut self, key: InnerKey) -> (r: Option<TaggedHandle>) {
        dense_slot_map_detach(self, key)
    }

    fn reattach(&mut self, key: InnerKey, value: TaggedHandle) {
        dense_slot_map_reattach(self, key, value)
    }

    fn entries(&self) -> (r: Vec<(InnerKey, TaggedHandle)>) {
        dense_slot_map_iter(self)
    }

    fn drain(&mut self) -> (r: Vec<(InnerKey, TaggedHandle)>) {
        dense_slot_map_drain(self)
    }

    fn into_pairs(self) -> (r: Vec<(InnerKey, TaggedHandle)>) {
        dense_slot_map_into_iter(self)
    }
}

} // verus!
