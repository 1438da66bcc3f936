// Scenarios of the cast maps over dense storage (`DenseSlotMap`).

use std::any::{Any, TypeId};

use cast_slotmap::cast_key::CastKey;
use cast_slotmap::cast_map::BoxDenseCastMap;
use cast_slotmap::type_tagged_ptr::{TaggedHandle, TypeTaggedPtr};
use cast_slotmap::unsafe_cast_map::UnsafeBoxDenseCastMap;

struct Dog;

struct Cat;

type AnyMap = BoxDenseCastMap<dyn Any>;

fn tagged<T: 'static>(handle: u64) -> TaggedHandle {
    TypeTaggedPtr::from_raw_parts(handle, TypeId::of::<T>())
}

#[test]
fn tests_insert_then_downcast_typed_get() {
    let mut map: AnyMap = AnyMap::new();
    let dyn_key = map.insert(tagged::<Dog>(7));
    let key = map.downcast_key::<Dog>(dyn_key.inner_key()).unwrap();
    assert_eq!(*map.get(key).unwrap(), 7);
    assert_eq!(map.len(), 1);
}

#[test]
fn typed_get_and_downcast_key() {
    let mut map: AnyMap = AnyMap::new();
    let key: CastKey<Dog> = map.insert_sized(tagged::<Dog>(3));
    assert_eq!(*map.get(key).unwrap(), 3);

    let dyn_key: CastKey<dyn Any> = key.upcast();
    let recovered: CastKey<Dog> = map.downcast_key::<Dog>(dyn_key.inner_key()).unwrap();
    assert_eq!(*map.get(recovered).unwrap(), 3);
    assert!(map.downcast_key::<Cat>(dyn_key.inner_key()).is_none());
}

#[test]
fn get_mut_then_remove_invalidates() {
    let mut map: AnyMap = AnyMap::new();
    let kx = map.insert(tagged::<Cat>(9));
    let key = map.downcast_key::<Cat>(kx.inner_key()).unwrap();
    *map.get_mut(key).unwrap() -= 1;
    assert_eq!(*map.get(key).unwrap(), 8);

    let removed: TaggedHandle = map.remove(key).unwrap();
    assert_eq!(*removed.inner_ref(), 8);
    assert!(map.get(key).is_none());
    assert!(map.is_empty());
}

#[test]
fn tests_cross_map_wrong_type_is_rejected() {
    let mut a: AnyMap = AnyMap::new();
    let mut b: AnyMap = AnyMap::new();

    let ka: CastKey<Dog> = a.insert_sized(tagged::<Dog>(1));
    let _kb: CastKey<Cat> = b.insert_sized(tagged::<Cat>(1));

    assert!(b.get(ka).is_none());
    assert!(!b.contains_key(ka));
    assert_eq!(*a.get(ka).unwrap(), 1);
}

#[test]
fn iter_values_keys_retain() {
    let mut map: AnyMap = AnyMap::new();
    map.insert(tagged::<Dog>(0));
    map.insert(tagged::<Cat>(1));
    map.insert(tagged::<Cat>(9));

    assert_eq!(map.iter().len(), 3);
    assert_eq!(map.values().len(), 3);
    assert_eq!(map.keys().len(), 3);

    map.retain(|k: CastKey<dyn Any>, v: u64| k.metadata() == TypeId::of::<Cat>() && v > 5);
    assert_eq!(map.len(), 1);
}

#[test]
fn unsafe_dense_map_roundtrip() {
    let mut map: UnsafeBoxDenseCastMap<dyn Any> = UnsafeBoxDenseCastMap::new();
    let key: CastKey<Dog> = map.insert_sized(tagged::<Dog>(5));

    assert_eq!(*map.get(key).unwrap(), 5);

    let removed = map.remove(key).unwrap();
    assert_eq!(*removed.inner_ref(), 5);
    assert!(map.is_empty());
}

#[test]
fn insert_as_roundtrip() {
    let mut map: AnyMap = AnyMap::new();
    let key: CastKey<dyn Send> = map.insert_as(tagged::<Dog>(2));
    assert_eq!(map.len(), 1);
    assert_eq!(key.metadata(), TypeId::of::<Dog>());

    let removed = map.remove_by_inner_key(key.inner_key()).unwrap();
    assert_eq!(*removed.inner_ref(), 2);
    assert!(map.is_empty());
}

#[test]
fn get_disjoint_mut_typed() {
    let mut map: BoxDenseCastMap<u32> = BoxDenseCastMap::new();
    let k1: CastKey<u32> = map.insert(tagged::<u32>(1));
    let k2: CastKey<u32> = map.insert(tagged::<u32>(2));
    let k3: CastKey<u32> = map.insert(tagged::<u32>(3));

    let [a, b, c] = map.get_disjoint_mut([k1, k2, k3]).unwrap();
    *a += 10;
    *b += 20;
    *c += 30;
    assert_eq!(*map.get(k1).unwrap(), 11);
    assert_eq!(*map.get(k2).unwrap(), 22);
    assert_eq!(*map.get(k3).unwrap(), 33);

    // Aliasing keys are rejected.
    assert!(map.get_disjoint_mut([k1, k1]).is_none());
}

#[test]
fn dense_detach_reattach_restores() {
    let mut map: UnsafeBoxDenseCastMap<dyn Any> = UnsafeBoxDenseCastMap::new();
    let key = map.insert(tagged::<Cat>(6));
    let value = map.detach_by_inner_key(key.inner_key()).unwrap();
    assert!(map.is_empty());
    assert!(!map.contains_key(key));
    map.reattach(key, value);
    assert_eq!(*map.get(key).unwrap(), 6);
    assert_eq!(map.len(), 1);
}

#[test]
fn dense_drain_and_into_pairs() {
    let mut map: AnyMap = AnyMap::new();
    map.insert(tagged::<Cat>(3));
    map.insert(tagged::<Cat>(4));
    let drained = map.drain();
    assert_eq!(drained.len(), 2);
    assert!(map.is_empty());

    map.insert(tagged::<Cat>(5));
    let pairs = map.into_pairs();
    assert_eq!(pairs.len(), 1);
    assert_eq!(*pairs[0].1.inner_ref(), 5);
}

#[test]
fn dense_iter_mut_and_clone() {
    let mut map: AnyMap = AnyMap::new();
    let k: CastKey<Cat> = map.insert_sized(tagged::<Cat>(1));
    for (_key, v) in map.iter_mut() {
        *v += 1;
    }
    let copy = map.clone();
    assert_eq!(*copy.get(k).unwrap(), 2);
    assert_eq!(copy.len(), 1);
}

#[test]
fn dense_capacity_and_clear() {
    let mut map: AnyMap = AnyMap::with_capacity(16);
    assert!(map.capacity() >= 16);
    let key = map.insert(tagged::<Cat>(1));
    map.reserve(100);
    assert!(map.capacity() >= 101);
    assert!(map.try_reserve(10).is_ok());
    let before = map.capacity();
    map.clear();
    assert!(map.is_empty());
    assert_eq!(map.capacity(), before);
    assert!(map.cast_key_of(key.inner_key()).is_none());
}

#[test]
fn dense_values_mut_and_disjoint_by_inner_key() {
    let mut map: AnyMap = AnyMap::new();
    let k1: CastKey<Cat> = map.insert_sized(tagged::<Cat>(1));
    let k2: CastKey<Cat> = map.insert_sized(tagged::<Cat>(2));
    for v in map.values_mut() {
        *v += 1;
    }
    let [a, b] = map.get_disjoint_mut_by_inner_key([k2.inner_key(), k1.inner_key()]).unwrap();
    *a *= 10;
    *b *= 100;
    assert_eq!(*map.get(k1).unwrap(), 200);
    assert_eq!(*map.get(k2).unwrap(), 30);
    assert!(map.get_disjoint_mut_by_inner_key([k1.inner_key(), k1.inner_key()]).is_none());
}

#[test]
fn dense_try_reserve_nothing_succeeds() {
    let mut map: AnyMap = AnyMap::new();
    map.insert(tagged::<Cat>(1));
    let before = map.capacity();
    assert!(map.try_reserve(0).is_ok());
    assert_eq!(map.capacity(), before);
}

#[test]
fn dense_disjoint_lookup_keeps_order() {
    let mut map: AnyMap = AnyMap::new();
    let k1: CastKey<Cat> = map.insert_sized(tagged::<Cat>(1));
    let k2: CastKey<Cat> = map.insert_sized(tagged::<Cat>(2));
    let k3: CastKey<Cat> = map.insert_sized(tagged::<Cat>(3));
    let before: Vec<u64> = map.keys().iter().map(|k| k.key_data()).collect();
    let [a, b] = map.get_disjoint_mut([k3, k1]).unwrap();
    *a += 1;
    *b += 1;
    let after: Vec<u64> = map.keys().iter().map(|k| k.key_data()).collect();
    assert_eq!(before, after);
    assert_eq!(*map.get(k2).unwrap(), 2);
}

#[test]
fn dense_removed_key_stays_stale() {
    let mut map: AnyMap = AnyMap::new();
    let k1: CastKey<Cat> = map.insert_sized(tagged::<Cat>(1));
    let _ = map.remove(k1).unwrap();
    let k2: CastKey<Cat> = map.insert_sized(tagged::<Cat>(2));
    assert!(!(k1 == k2));
    assert!(map.get(k1).is_none());
    assert_eq!(*map.get(k2).unwrap(), 2);
}
