// Scenarios of keys: typed keys, their dyn-dispatchable form, tagged values
// and map ids.

use std::any::{Any, TypeId};

use cast_slotmap::any_haver::{type_id_from_meta, AnyHaver};
use cast_slotmap::cast_box::CastBox;
use cast_slotmap::cast_key::CastKey;
use cast_slotmap::cast_map::BoxCastMap;
use cast_slotmap::dyn_key::DynKey;
use cast_slotmap::map_id::MapId;
use cast_slotmap::type_tagged_ptr::{ConcreteTypeId, TaggedHandle, TypeTaggedBox, TypeTaggedPtr};

struct Dog;

type AnyMap = BoxCastMap<dyn Any>;

fn tagged<T: 'static>(handle: u64) -> TaggedHandle {
    TypeTaggedPtr::from_raw_parts(handle, TypeId::of::<T>())
}

#[test]
fn dyn_key_round_trips() {
    let mut map: AnyMap = AnyMap::new();
    let key: CastKey<Dog> = map.insert_sized(tagged::<Dog>(1));

    let back = key.as_dyn().key();
    assert!(back == key);
    assert_eq!(back.metadata(), key.metadata());
    assert_eq!(*map.get(back).unwrap(), 1);

    let any_key: CastKey<dyn Any> = key.upcast();
    let any_back = any_key.as_dyn().key();
    assert!(any_back == any_key);
    assert_eq!(
        type_id_from_meta::<Dog>(any_back.metadata()),
        type_id_from_meta::<Dog>(any_key.metadata()),
    );
}

#[test]
fn dyn_key_coerced_round_trips() {
    let mut map: AnyMap = AnyMap::new();
    let dog: CastKey<Dog> = map.insert_sized(tagged::<Dog>(2));
    let dk: DynKey<'_, Dog> = DynKey::new(&dog);
    let back: CastKey<Dog> = dk.key();
    assert!(back == dog);
    assert_eq!(back.metadata(), TypeId::of::<Dog>());
}

#[test]
fn dyn_key_downcast_checks_metadata() {
    let mut map: AnyMap = AnyMap::new();
    let dog: CastKey<Dog> = map.insert_sized(tagged::<Dog>(2));
    let as_u32: CastKey<u32> = dog.upcast();
    // The metadata still describes `Dog`.
    assert!(as_u32.as_dyn().downcast::<u32>().is_none());
    let d = as_u32.as_dyn().downcast_with_id::<Dog>(TypeId::of::<Dog>()).unwrap();
    assert!(d.key().inner_key() == dog.inner_key());
    assert!(dog.as_dyn().downcast::<Dog>().is_some());
}

#[test]
fn key_accessors() {
    let mut map: AnyMap = AnyMap::new();
    let key = map.insert(tagged::<Dog>(3));
    let rebuilt: CastKey<dyn Any> = CastKey::from_raw_parts(key.inner_key(), key.metadata());
    assert!(rebuilt == key);
    assert_eq!(key.key_data(), key.inner_key().as_ffi());
    // Every issued key has the low bit of its version half set.
    assert_eq!(key.key_data() & 0x1_0000_0000, 0x1_0000_0000);
}

#[test]
fn tagged_pointers_record_type_ids() {
    let boxed: TypeTaggedBox<u32> = TypeTaggedPtr::new(5u32);
    assert_eq!(boxed.concrete_type_id(), TypeId::of::<u32>());
    assert_eq!(**boxed.inner_ref(), 5);
    assert_eq!(*boxed, 5);
    let from_ptr = TypeTaggedPtr::from_ptr(Box::new(Dog));
    assert_eq!(from_ptr.concrete_type_id(), TypeId::of::<Dog>());
    let inner: Box<u32> = boxed.inner();
    assert_eq!(*inner, 5);

    let cast_box = CastBox::new(9u8);
    assert_eq!(cast_box.concrete_type_id(), TypeId::of::<u8>());
    assert_eq!(*cast_box.get(), 9);
    assert_eq!(*cast_box, 9);
}

#[test]
fn any_haver_reports_concrete_type() {
    assert_eq!(7u16.haver_type_id(), TypeId::of::<u16>());
    assert_eq!(type_id_from_meta::<u16>(TypeId::of::<u16>()), TypeId::of::<u16>());
}

#[test]
fn map_ids_are_issued_from_a_counter() {
    assert!(MapId::issued_from(0).is_none());
    let id = MapId::issued_from(5).unwrap();
    assert_eq!(id.get_underlying_non_zero_usize(), 5);
    assert_eq!(MapId::advance(5), Some(6));
    assert_eq!(MapId::advance(usize::MAX), None);
    assert_eq!(MapId::from_non_zero_usize(3).get_underlying_non_zero_usize(), 3);
}


struct Cat;

trait Pet: AnyHaver {}

impl Pet for Dog {}

impl Pet for Cat {}

/// What a pet says, chosen by the concrete type its key's metadata
/// describes; the map is consulted only for the value.
fn speak(key: CastKey<dyn Pet>, map: &AnyMap, names: &[&str]) -> String {
    let dyn_key = key.as_dyn();
    if let Some(dog) = dyn_key.downcast::<Dog>() {
        format!("woof {}", names[*map.get(dog.key()).unwrap() as usize])
    } else if let Some(cat) = dyn_key.downcast::<Cat>() {
        format!("meow x{}", map.get(cat.key()).unwrap())
    } else {
        String::new()
    }
}

#[test]
fn dyn_key_dispatches_virtually() {
    let names = ["Rex"];
    let mut map: AnyMap = AnyMap::new();
    let dog: CastKey<Dog> = map.insert_sized(tagged::<Dog>(0));
    let cat: CastKey<Cat> = map.insert_sized(tagged::<Cat>(9));

    let pets: [CastKey<dyn Pet>; 2] = [dog.upcast(), cat.upcast()];
    let spoken: Vec<String> = pets.iter().map(|k| speak(*k, &map, &names)).collect();
    assert_eq!(spoken, ["woof Rex", "meow x9"]);
}

#[test]
fn dyn_key_is_send_sync_when_castkey_is() {
    // A `DynKey` is `Send + Sync` exactly when the `CastKey` it borrows is.
    fn assert_send_sync<T: Send + Sync>() {}
    assert_send_sync::<CastKey<Dog>>();
    assert_send_sync::<DynKey<'static, Dog>>();
    assert_send_sync::<CastKey<dyn Pet + Send + Sync>>();
    assert_send_sync::<DynKey<'static, dyn Pet + Send + Sync>>();
}

#[test]
fn inner_mut_keeps_the_tag() {
    let mut t = tagged::<Cat>(1);
    *t.inner_mut() = 5;
    assert_eq!(*t.inner_ref(), 5);
    assert_eq!(t.concrete_type_id(), TypeId::of::<Cat>());
}
