// Scenarios of the checked and low-level cast maps over sparse storage.
//
// A stored value is a handle tagged with the concrete type id of what it
// stands for: a `Dog` is stored as the index of its name in a list kept by
// the test, a `Cat` (or a `u32`) as the number itself.

use std::any::{Any, TypeId};

use cast_slotmap::cast_box::CastBox;
use cast_slotmap::cast_key::CastKey;
use cast_slotmap::cast_map::BoxCastMap;
use cast_slotmap::type_tagged_ptr::{ConcreteTypeId, TaggedHandle, TypeTaggedPtr};
use cast_slotmap::unsafe_cast_map::UnsafeBoxCastMap;

struct Dog;

struct Cat;

type AnyMap = BoxCastMap<dyn Any>;

fn tagged<T: 'static>(handle: u64) -> TaggedHandle {
    TypeTaggedPtr::from_raw_parts(handle, TypeId::of::<T>())
}

/// Names of the dogs a test stores; a dog's handle is its index here.
struct Kennel {
    names: Vec<&'static str>,
}

impl Kennel {
    fn new() -> Self {
        Kennel { names: Vec::new() }
    }

    fn dog(&mut self, name: &'static str) -> TaggedHandle {
        self.names.push(name);
        tagged::<Dog>((self.names.len() - 1) as u64)
    }

    fn name(&self, handle: &u64) -> &'static str {
        self.names[*handle as usize]
    }
}

#[test]
fn insert_then_downcast_typed_get() {
    let mut kennel = Kennel::new();
    let mut map: AnyMap = AnyMap::new();
    let dyn_key = map.insert(kennel.dog("Rex"));
    let key = map.downcast_key::<Dog>(dyn_key.inner_key()).unwrap();
    assert_eq!(kennel.name(map.get(key).unwrap()), "Rex");
    assert_eq!(map.len(), 1);
    assert!(!map.is_empty());
}

#[test]
fn typed_get_and_downcast_via_upcast() {
    let mut kennel = Kennel::new();
    let mut map: AnyMap = AnyMap::new();
    let key: CastKey<Dog> = map.insert_sized(kennel.dog("Fido"));
    assert_eq!(kennel.name(map.get(key).unwrap()), "Fido");

    let dyn_key: CastKey<dyn Any> = key.upcast();
    let recovered: CastKey<Dog> = map.downcast_key::<Dog>(dyn_key.inner_key()).unwrap();
    assert_eq!(kennel.name(map.get(recovered).unwrap()), "Fido");
}

#[test]
fn insert_sized_gives_typed_key() {
    let mut kennel = Kennel::new();
    let mut map: AnyMap = AnyMap::new();
    let key: CastKey<Dog> = map.insert_sized(kennel.dog("Sz"));
    assert_eq!(kennel.name(map.get(key).unwrap()), "Sz");

    // The same slot is reachable through the backing key, type-erased.
    let erased = map.cast_key_of(key.inner_key()).unwrap();
    assert_eq!(erased.metadata(), TypeId::of::<Dog>());
    assert!(map.get_by_inner_key(key.inner_key()).is_some());
}

#[test]
fn downcast_key_right_and_wrong_type() {
    let mut kennel = Kennel::new();
    let mut map: AnyMap = AnyMap::new();
    let dyn_key = map.insert(kennel.dog("Spot"));

    let recovered: CastKey<Dog> = map.downcast_key::<Dog>(dyn_key.inner_key()).unwrap();
    assert_eq!(kennel.name(map.get(recovered).unwrap()), "Spot");

    assert!(map.downcast_key::<Cat>(dyn_key.inner_key()).is_none());
}

#[test]
fn get_mut_mutates() {
    let mut map: AnyMap = AnyMap::new();
    let kx = map.insert(tagged::<Cat>(9));
    let key = map.downcast_key::<Cat>(kx.inner_key()).unwrap();
    *map.get_mut(key).unwrap() -= 1;
    assert_eq!(*map.get(key).unwrap(), 8);
}

#[test]
fn remove_returns_boxed_concrete() {
    let mut kennel = Kennel::new();
    let mut map: AnyMap = AnyMap::new();
    let kx = map.insert(kennel.dog("Bud"));
    let key = map.downcast_key::<Dog>(kx.inner_key()).unwrap();

    let removed: TaggedHandle = map.remove(key).unwrap();
    assert_eq!(kennel.name(removed.inner_ref()), "Bud");
    assert_eq!(removed.concrete_type_id(), TypeId::of::<Dog>());

    // The key is now stale.
    assert!(map.get(key).is_none());
    assert!(map.is_empty());
}

#[test]
fn remove_wrong_type_is_rejected() {
    let mut kennel = Kennel::new();
    let mut map: AnyMap = AnyMap::new();
    let dog_key: CastKey<Dog> = map.insert_sized(kennel.dog("Kept"));

    // A `Cat`-typed key naming the same slot is refused by the type check.
    let wrong: CastKey<Cat> = CastKey::from_raw_parts(dog_key.inner_key(), TypeId::of::<Cat>());
    assert!(map.remove(wrong).is_none());
    assert!(map.get(wrong).is_none());
    assert_eq!(kennel.name(map.get(dog_key).unwrap()), "Kept");
}

#[test]
fn stale_key_after_remove_reinsert() {
    let mut map: AnyMap = AnyMap::new();
    let k1x = map.insert(tagged::<Cat>(1));
    let k1 = map.downcast_key::<Cat>(k1x.inner_key()).unwrap();
    let _ = map.remove(k1).unwrap();
    let k2x = map.insert(tagged::<Cat>(2));
    let k2 = map.downcast_key::<Cat>(k2x.inner_key()).unwrap();

    // The old key does not alias the new value.
    assert!(map.get(k1).is_none());
    assert_eq!(*map.get(k2).unwrap(), 2);
}

#[test]
fn clear_invalidates_keys() {
    let mut kennel = Kennel::new();
    let mut map: AnyMap = AnyMap::new();
    let kx = map.insert(kennel.dog("Rex"));
    let key = map.downcast_key::<Dog>(kx.inner_key()).unwrap();
    map.clear();
    assert!(map.get(key).is_none());
    assert!(map.is_empty());
}

#[test]
fn cross_map_wrong_type_is_rejected() {
    let mut kennel = Kennel::new();
    let mut a: AnyMap = AnyMap::new();
    let mut b: AnyMap = AnyMap::new();

    let ka: CastKey<Dog> = a.insert_sized(kennel.dog("A"));
    // Same slot and version in `b`, but holding a Cat.
    let _kb: CastKey<Cat> = b.insert_sized(tagged::<Cat>(9));

    assert!(b.get(ka).is_none());
    assert!(!b.contains_key(ka));
    assert!(b.remove(ka).is_none());
    assert!(b.downcast_key::<Dog>(ka.inner_key()).is_none());

    // The key still resolves in its own map.
    assert_eq!(kennel.name(a.get(ka).unwrap()), "A");
}

#[test]
fn cross_map_same_type_resolves() {
    let mut kennel = Kennel::new();
    let mut a: AnyMap = AnyMap::new();
    let mut b: AnyMap = AnyMap::new();

    let ka: CastKey<Dog> = a.insert_sized(kennel.dog("A"));
    let _kb: CastKey<Dog> = b.insert_sized(kennel.dog("B"));

    // Same slot, same version, same type: the foreign key resolves to b's value.
    assert_eq!(kennel.name(b.get(ka).unwrap()), "B");
}

#[test]
fn contains_key_tracks_liveness() {
    let mut map: AnyMap = AnyMap::new();
    let kx = map.insert(tagged::<Cat>(9));
    let key = map.downcast_key::<Cat>(kx.inner_key()).unwrap();
    assert!(map.contains_key(key));
    let _ = map.remove(key);
    assert!(!map.contains_key(key));
}

#[test]
fn iter_and_values_and_keys() {
    let mut kennel = Kennel::new();
    let mut map: AnyMap = AnyMap::new();
    map.insert(kennel.dog("a"));
    map.insert(tagged::<Cat>(1));
    map.insert(tagged::<Cat>(2));

    assert_eq!(map.iter().len(), 3);
    assert_eq!(map.values().len(), 3);
    assert_eq!(map.keys().len(), 3);

    let cat_lives_sum: u64 = map
        .iter()
        .into_iter()
        .filter(|(k, _v)| k.metadata() == TypeId::of::<Cat>())
        .map(|(_k, v)| v)
        .sum();
    assert_eq!(cat_lives_sum, 3);
}

#[test]
fn retain_keeps_matching() {
    let mut kennel = Kennel::new();
    let mut map: AnyMap = AnyMap::new();
    map.insert(tagged::<Cat>(1));
    map.insert(tagged::<Cat>(9));
    map.insert(kennel.dog("z"));

    map.retain(|k: CastKey<dyn Any>, v: u64| k.metadata() == TypeId::of::<Cat>() && v > 5);
    assert_eq!(map.len(), 1);
    assert_eq!(map.values(), vec![9]);
}

#[test]
fn drain_empties_and_yields() {
    let mut map: AnyMap = AnyMap::new();
    map.insert(tagged::<Cat>(3));
    map.insert(tagged::<Cat>(4));

    let drained: Vec<TaggedHandle> = map.drain().into_iter().map(|(_k, v)| v).collect();
    assert_eq!(drained.len(), 2);
    assert!(map.is_empty());
}

#[test]
fn index_reads() {
    let mut map: AnyMap = AnyMap::new();
    let key: CastKey<u32> = map.insert_sized(tagged::<u32>(41));
    assert_eq!(*map.get(key).unwrap(), 41);
}

#[test]
fn with_capacity_reserves() {
    let map: AnyMap = AnyMap::with_capacity(16);
    assert!(map.capacity() >= 16);
    assert!(map.is_empty());
}

#[test]
fn insert_with_key_threads_key() {
    let mut map: AnyMap = AnyMap::new();
    let mut captured = None;
    let dyn_key = map.insert_with_key(|k| {
        captured = Some(k);
        tagged::<u32>(123)
    });
    assert!(captured.is_some());
    assert_eq!(captured.unwrap(), dyn_key.inner_key());

    let key = map.downcast_key::<u32>(dyn_key.inner_key()).unwrap();
    assert_eq!(*map.get(key).unwrap(), 123);
}

#[test]
fn insert_sized_with_key_threads_typed_key() {
    let mut kennel = Kennel::new();
    let mut map: AnyMap = AnyMap::new();
    let mut captured: Option<CastKey<Dog>> = None;
    let handle = kennel.dog("WK");
    let key = map.insert_sized_with_key(|k| {
        captured = Some(k);
        handle
    });
    assert!(captured.unwrap() == key);
    assert_eq!(kennel.name(map.get(key).unwrap()), "WK");
}

#[test]
fn try_insert_error_is_noop() {
    let mut map: AnyMap = AnyMap::new();
    let res: Result<CastKey<dyn Any>, &str> = map.try_insert_with_key(|_k| Err("nope"));
    assert_eq!(res.err(), Some("nope"));
    assert!(map.is_empty());
}

#[test]
fn owned_into_iterator_yields_all() {
    let mut map: AnyMap = AnyMap::new();
    map.insert(tagged::<Cat>(1));
    map.insert(tagged::<Cat>(2));

    let sum: u64 = map
        .into_pairs()
        .into_iter()
        .filter(|(_k, v)| v.concrete_type_id() == TypeId::of::<Cat>())
        .map(|(_k, v)| *v.inner_ref())
        .sum();
    assert_eq!(sum, 3);
}

#[test]
fn index_mut_mutates() {
    let mut map: AnyMap = AnyMap::new();
    let key: CastKey<u32> = map.insert_sized(tagged::<u32>(5));
    *map.get_mut(key).unwrap() += 10;
    assert_eq!(*map.get(key).unwrap(), 15);
}

#[test]
fn unsafe_map_typed_roundtrip() {
    let mut kennel = Kennel::new();
    let mut map: UnsafeBoxCastMap<dyn Any> = UnsafeBoxCastMap::new();
    let key: CastKey<Dog> = map.insert_sized(kennel.dog("U"));

    assert_eq!(kennel.name(map.get(key).unwrap()), "U");

    let removed = map.remove(key).unwrap();
    assert_eq!(kennel.name(removed.inner_ref()), "U");
    assert!(map.is_empty());
}

#[test]
fn unsafe_map_detach_reattach() {
    let mut kennel = Kennel::new();
    let mut map: UnsafeBoxCastMap<dyn Any> = UnsafeBoxCastMap::new();
    let key: CastKey<Dog> = map.insert_sized(kennel.dog("Rex"));

    let dog = map.detach(key).unwrap();
    assert_eq!(kennel.name(dog.inner_ref()), "Rex");
    // The slot is detached, so the lookup misses.
    assert!(map.get(key).is_none());
    assert!(map.is_empty());

    // Reattach another dog under the same key.
    let max = kennel.dog("Max");
    map.reattach(key.upcast::<dyn Any>(), max);
    assert_eq!(kennel.name(map.get(key).unwrap()), "Max");
    assert_eq!(map.len(), 1);

    // Backing-key detach/reattach.
    let ik = key.inner_key();
    let erased = map.detach_by_inner_key(ik).unwrap();
    assert_eq!(kennel.name(erased.inner_ref()), "Max");
    let zed = kennel.dog("Zed");
    map.reattach_by_inner_key(ik, zed);
    assert_eq!(kennel.name(map.get(key).unwrap()), "Zed");
}

#[test]
fn insert_as_keeps_source_typed_key() {
    let mut kennel = Kennel::new();
    let mut map: AnyMap = AnyMap::new();
    let key: CastKey<dyn Send> = map.insert_as(kennel.dog("As"));
    // The key's metadata describes the value's concrete type.
    assert_eq!(key.metadata(), TypeId::of::<Dog>());

    let removed = map.remove_by_inner_key(key.inner_key()).unwrap();
    assert_eq!(kennel.name(removed.inner_ref()), "As");
    assert!(map.is_empty());
}

#[test]
fn insert_as_with_key_threads_backing_key() {
    let mut map: AnyMap = AnyMap::new();
    let mut captured = None;
    let key: CastKey<dyn Send> = map.insert_as_with_key(|k| {
        captured = Some(k);
        tagged::<Cat>(3)
    });
    assert_eq!(captured.unwrap(), key.inner_key());
    assert_eq!(*map.get_by_inner_key(key.inner_key()).unwrap(), 3);
}

#[test]
fn try_insert_sized_error_is_noop() {
    let mut map: AnyMap = AnyMap::new();
    let res: Result<CastKey<Dog>, &str> = map.try_insert_sized_with_key(|_k| Err::<TaggedHandle, _>("nope"));
    assert_eq!(res.err(), Some("nope"));
    assert!(map.is_empty());
}

#[test]
fn try_insert_as_error_is_noop() {
    let mut map: AnyMap = AnyMap::new();
    let res: Result<CastKey<dyn Send>, &str> = map.try_insert_as_with_key(|_k| Err::<TaggedHandle, _>("nope"));
    assert_eq!(res.err(), Some("nope"));
    assert!(map.is_empty());
}

#[test]
fn cast_key_of_live_and_stale() {
    let mut map: AnyMap = AnyMap::new();
    let key: CastKey<Cat> = map.insert_sized(tagged::<Cat>(5));

    // Live slot: metadata is re-read from the stored value.
    let erased = map.cast_key_of(key.inner_key()).unwrap();
    assert_eq!(erased.inner_key(), key.inner_key());
    assert!(map.downcast_key::<Cat>(erased.inner_key()).unwrap() == key);

    // Stale after remove.
    let _ = map.remove(key).unwrap();
    assert!(map.cast_key_of(key.inner_key()).is_none());
}

#[test]
fn downcast_key_stale_returns_none() {
    let mut kennel = Kennel::new();
    let mut map: AnyMap = AnyMap::new();
    let dog: CastKey<Dog> = map.insert_sized(kennel.dog("St"));
    let dyn_key: CastKey<dyn Any> = dog.upcast();

    let _ = map.remove(dog).unwrap();
    assert!(map.downcast_key::<Dog>(dyn_key.inner_key()).is_none());
}

#[test]
fn inner_key_mut_helpers_work() {
    let mut map: AnyMap = AnyMap::new();
    let k: CastKey<u32> = map.insert_sized(tagged::<u32>(10));

    *map.get_by_inner_key_mut(k.inner_key()).unwrap() += 1;
    *map.get_by_inner_key_mut(k.inner_key()).unwrap() += 1;
    assert_eq!(*map.get(k).unwrap(), 12);

    let removed: TaggedHandle = map.remove_by_inner_key(k.inner_key()).unwrap();
    assert_eq!(*removed.inner_ref(), 12);
    assert!(map.is_empty());
}

#[test]
fn iter_mut_mutates_all() {
    let mut map: AnyMap = AnyMap::new();
    map.insert(tagged::<Cat>(1));
    map.insert(tagged::<Cat>(1));

    for (k, v) in map.iter_mut() {
        if k.metadata() == TypeId::of::<Cat>() {
            *v += 10;
        }
    }

    let total: u64 = map.values().into_iter().sum();
    assert_eq!(total, 22);
}

#[test]
fn values_mut_mutates_all() {
    let mut map: AnyMap = AnyMap::new();
    let k1: CastKey<u32> = map.insert_sized(tagged::<u32>(1));
    let k2: CastKey<u32> = map.insert_sized(tagged::<u32>(2));
    for v in map.values_mut() {
        *v *= 10;
    }
    assert_eq!(*map.get(k1).unwrap(), 10);
    assert_eq!(*map.get(k2).unwrap(), 20);
    // The type ids are kept.
    assert!(map.contains_key(k1));
}

#[test]
fn clone_keys_stay_valid() {
    let mut map: UnsafeBoxCastMap<u32> = UnsafeBoxCastMap::new();
    let key: CastKey<u32> = map.insert(tagged::<u32>(7));

    let clone = map.clone();
    assert_eq!(*clone.get(key).unwrap(), 7);
    assert_eq!(*map.get(key).unwrap(), 7);
}

#[test]
fn get_disjoint_mut_basic() {
    let mut map: BoxCastMap<u32> = BoxCastMap::new();
    let k1: CastKey<u32> = map.insert(tagged::<u32>(10));
    let k2: CastKey<u32> = map.insert(tagged::<u32>(20));

    let [a, b] = map.get_disjoint_mut([k1, k2]).unwrap();
    *a += 1;
    *b += 2;
    assert_eq!(*map.get(k1).unwrap(), 11);
    assert_eq!(*map.get(k2).unwrap(), 22);

    // Aliasing keys are rejected.
    assert!(map.get_disjoint_mut([k1, k1]).is_none());

    // Disjoint access by backing key, too.
    let [c] = map.get_disjoint_mut_by_inner_key([k2.inner_key()]).unwrap();
    *c += 100;
    assert_eq!(*map.get(k2).unwrap(), 122);
}

#[test]
fn get_disjoint_mut_wrong_type_is_rejected() {
    let mut map: BoxCastMap<u32> = BoxCastMap::new();
    let k: CastKey<u32> = map.insert(tagged::<u32>(7));

    // A `Cat`-typed key naming the same live slot is refused.
    let wrong: CastKey<Cat> = CastKey::from_raw_parts(k.inner_key(), TypeId::of::<Cat>());
    assert!(map.get_disjoint_mut([wrong]).is_none());

    // The honest key is unaffected.
    let [v] = map.get_disjoint_mut([k]).unwrap();
    *v += 1;
    assert_eq!(*map.get(k).unwrap(), 8);
}

#[test]
fn get_disjoint_mut_stale_key_is_rejected() {
    let mut map: BoxCastMap<u32> = BoxCastMap::new();
    let k1: CastKey<u32> = map.insert(tagged::<u32>(1));
    let k2: CastKey<u32> = map.insert(tagged::<u32>(2));
    let _ = map.remove(k2);
    assert!(map.get_disjoint_mut([k1, k2]).is_none());
    assert!(map.get_disjoint_mut_by_inner_key([k1.inner_key(), k2.inner_key()]).is_none());
    // Nothing was written.
    assert_eq!(*map.get(k1).unwrap(), 1);
}

#[test]
fn get_disjoint_unchecked_mut_writes_each_slot() {
    let mut map: BoxCastMap<u32> = BoxCastMap::new();
    let k1: CastKey<u32> = map.insert(tagged::<u32>(1));
    let k2: CastKey<u32> = map.insert(tagged::<u32>(2));
    let [a, b] = map.get_disjoint_unchecked_mut([k2, k1]);
    *a = 200;
    *b = 100;
    assert_eq!(*map.get(k1).unwrap(), 100);
    assert_eq!(*map.get(k2).unwrap(), 200);
}

#[test]
fn unchecked_lookups_read_and_write() {
    let mut map: AnyMap = AnyMap::new();
    let key: CastKey<u32> = map.insert_sized(tagged::<u32>(3));
    assert_eq!(*map.get_unchecked(key), 3);
    *map.get_unchecked_mut(key) = 4;
    assert_eq!(*map.get(key).unwrap(), 4);
}

#[test]
fn reserve_and_try_reserve_grow_capacity() {
    let mut map: AnyMap = AnyMap::new();
    map.insert(tagged::<Cat>(1));
    map.reserve(40);
    assert!(map.capacity() >= 41);
    assert!(map.try_reserve(100).is_ok());
    assert!(map.capacity() >= 101);
    assert_eq!(map.len(), 1);
}

#[test]
fn default_map_is_empty() {
    let map: AnyMap = AnyMap::default();
    assert!(map.is_empty());
    assert_eq!(map.len(), 0);
}

#[test]
fn clear_keeps_capacity() {
    let mut map: AnyMap = AnyMap::with_capacity(8);
    let before = map.capacity();
    map.insert(tagged::<Cat>(1));
    map.clear();
    assert_eq!(map.capacity(), before);
    assert_eq!(map.len(), 0);
}

#[test]
fn keys_carry_stored_type_ids() {
    let mut kennel = Kennel::new();
    let mut map: AnyMap = AnyMap::new();
    let dog = map.insert(kennel.dog("K"));
    let cat = map.insert(tagged::<Cat>(2));
    let keys = map.keys();
    assert_eq!(keys.len(), 2);
    for k in keys {
        if k.inner_key() == dog.inner_key() {
            assert_eq!(k.metadata(), TypeId::of::<Dog>());
        } else {
            assert!(k.inner_key() == cat.inner_key());
            assert_eq!(k.metadata(), TypeId::of::<Cat>());
        }
    }
}

#[test]
fn inner_accessors_reach_the_low_level_map() {
    let mut map: AnyMap = AnyMap::new();
    let key: CastKey<Cat> = map.insert_sized(tagged::<Cat>(5));
    assert_eq!(map.inner_ref().len(), 1);
    // Detach through the low-level map; the checked lookup then misses.
    let detached = map.inner_mut().detach(key).unwrap();
    assert_eq!(*detached.inner_ref(), 5);
    assert!(map.get(key).is_none());
    map.inner_mut().reattach_sized(key, detached);
    assert_eq!(*map.get(key).unwrap(), 5);
    let low = map.inner();
    assert_eq!(low.len(), 1);
}

#[test]
fn unsafe_map_downcast_key() {
    let mut map: UnsafeBoxCastMap<dyn Any> = UnsafeBoxCastMap::new();
    let erased = map.insert(tagged::<Cat>(4));
    let cat: CastKey<Cat> = map.downcast_key::<Cat>(erased).unwrap();
    assert!(cat.inner_key() == erased.inner_key());
    assert!(map.downcast_key::<Dog>(erased).is_none());
    assert!(map.downcast_key_with_id::<Cat>(erased, TypeId::of::<Cat>()).is_some());
    let _ = map.remove_by_inner_key(erased.inner_key());
    assert!(map.downcast_key::<Cat>(erased).is_none());
}

#[test]
fn checked_downcast_key_with_id_compares_stored_id() {
    let mut map: AnyMap = AnyMap::new();
    let erased = map.insert(tagged::<Cat>(4));
    let k = map.downcast_key_with_id::<Cat>(erased.inner_key(), TypeId::of::<Cat>()).unwrap();
    assert_eq!(k.metadata(), TypeId::of::<Cat>());
    assert!(map.downcast_key_with_id::<Cat>(erased.inner_key(), TypeId::of::<Dog>()).is_none());
}

#[test]
fn listed_keys_resolve() {
    let mut kennel = Kennel::new();
    let mut map: AnyMap = AnyMap::new();
    map.insert(kennel.dog("L"));
    map.insert(tagged::<Cat>(4));
    for key in map.keys() {
        // Re-typed to the type it describes, every listed key resolves.
        if key.metadata() == TypeId::of::<Dog>() {
            assert!(map.contains_key(key.upcast::<Dog>()));
        } else {
            assert!(map.contains_key(key.upcast::<Cat>()));
        }
    }
    for (key, _output) in map.iter() {
        let erased = map.cast_key_of(key.inner_key()).unwrap();
        assert_eq!(erased.metadata(), key.metadata());
    }
}

#[test]
fn upcast_keeps_resolution() {
    let mut map: AnyMap = AnyMap::new();
    let cat: CastKey<Cat> = map.insert_sized(tagged::<Cat>(3));
    let as_dog: CastKey<Dog> = cat.upcast();
    // Same slot, same described type: the re-typed key resolves alike.
    assert!(map.contains_key(as_dog));
    assert_eq!(*map.get(as_dog).unwrap(), 3);
    let _ = map.remove(cat);
    assert!(!map.contains_key(as_dog));
}

#[test]
fn checked_agrees_with_unchecked() {
    let mut map: AnyMap = AnyMap::new();
    let key: CastKey<Cat> = map.insert_sized(tagged::<Cat>(8));
    assert_eq!(map.get(key), map.inner_ref().get(key));
    let _ = map.remove(key);
    assert_eq!(map.get(key), map.inner_ref().get(key));
}

#[test]
fn try_reserve_within_capacity_succeeds() {
    let mut map: AnyMap = AnyMap::with_capacity(8);
    map.insert(tagged::<Cat>(1));
    let before = map.capacity();
    assert!(map.try_reserve(before - map.len()).is_ok());
    assert_eq!(map.capacity(), before);
}

#[test]
fn cast_box_derefs_to_its_value() {
    let b = CastBox::new(11u16);
    assert_eq!(*b, 11);
    let t = TypeTaggedPtr::new(12u16);
    assert_eq!(*t, 12);
}

#[test]
fn cleared_keys_stay_stale_after_reinsert() {
    let mut map: AnyMap = AnyMap::new();
    let old_keys: Vec<CastKey<Cat>> = (0..3).map(|i| map.insert_sized(tagged::<Cat>(i))).collect();
    map.clear();
    let new_keys: Vec<CastKey<Cat>> = (0..3).map(|i| map.insert_sized(tagged::<Cat>(10 + i))).collect();
    for k in &old_keys {
        assert!(map.get(*k).is_none());
        assert!(new_keys.iter().all(|n| !(n == k)));
    }
    assert_eq!(map.len(), 3);
}

#[test]
fn refused_remove_keeps_capacity() {
    let mut map: AnyMap = AnyMap::with_capacity(4);
    let k: CastKey<Cat> = map.insert_sized(tagged::<Cat>(1));
    let before = map.capacity();
    let wrong: CastKey<Dog> = CastKey::from_raw_parts(k.inner_key(), TypeId::of::<Dog>());
    assert!(map.remove(wrong).is_none());
    assert_eq!(map.capacity(), before);
    let _ = map.try_insert_with_key(|_k| Err::<TaggedHandle, _>(()));
    assert_eq!(map.capacity(), before);
}

#[test]
fn new_maps_issue_the_same_first_key() {
    let mut a: AnyMap = AnyMap::new();
    let mut b: UnsafeBoxCastMap<dyn Any> = UnsafeBoxCastMap::new();
    let ka = a.insert(tagged::<Cat>(1));
    let kb = b.insert(tagged::<Cat>(2));
    assert_eq!(ka.key_data(), kb.key_data());
    // Slot 1, version 1.
    assert_eq!(ka.key_data(), 0x1_0000_0001);
}
