# cast_slotmap

Castable-key maps over the [`slotmap`](https://crates.io/crates/slotmap)
crate's `SlotMap` and `DenseSlotMap`, verified with Verus.

A map stores type-erased values and hands back typed keys. Each stored value
is a `TaggedHandle`: the handle by which its owner reaches the value, tagged
with the concrete `TypeId` of that value. A `CastKey<T>` pairs the backing
`slotmap` key with the concrete type id its pointer metadata describes.

* `CastMapG` (aliases `CastMap`, `DenseCastMap`, `BoxCastMap`,
  `BoxDenseCastMap`) checks every keyed lookup: a key resolves exactly when
  its slot is live and the stored type id is the one the key describes. A
  stale, mistyped or foreign key gets `None`.
* `UnsafeCastMapG` (aliases `UnsafeCastMap`, `UnsafeDenseCastMap`, ...)
  trusts the key instead; its typed lookups require that the key fits its
  slot.

## Layout

* `src/slotmap_trait.rs`: the backing maps. `SparseSlots` and `DenseSlots`
  hold a `slotmap` map; the functions marked `external_body` there are the
  only places that call `slotmap`, and their contracts state what its source
  shows. `SlotMapTrait` is the interface the cast maps are written against.
* `src/unsafe_cast_map.rs`, `src/cast_map.rs`: the two maps, their
  contracts over the live slots, detached keys and capacity, and the laws
  that relate their operations (`law_*`).
* `src/cast_key.rs`, `src/dyn_key.rs`: keys and their pointer-shaped form.
* `src/type_tagged_ptr.rs`, `src/cast_box.rs`, `src/any_haver.rs`: type-id
  bookkeeping; `TypeId::of` and `TypeId`'s equality are reached through the
  trusted functions of `any_haver.rs`.
* `src/map_id.rs`: map ids; the process-wide counter they are issued from is
  in `app/lib.rs`.
