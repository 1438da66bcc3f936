//! Castable-key maps over the `slotmap` crate's `SlotMap` and `DenseSlotMap`.
//!
//! Values are stored type-erased, each tagged with the concrete
//! [`TypeId`](std::any::TypeId) of what it holds, and the maps hand back
//! typed [`CastKey`]s. A key carries the concrete type id its pointer
//! metadata describes; the checked [`CastMapG`] compares it with the stored
//! tag on every keyed lookup, so a stale, mistyped or foreign key resolves to
//! `None`. The low-level [`UnsafeCastMapG`] trusts the key instead, and its
//! typed lookups require that the key fits its slot.
//!
//! Both maps are generic over the backing map ([`SlotMapTrait`]); the
//! aliases [`CastMap`] / [`DenseCastMap`] and [`UnsafeCastMap`] /
//! [`UnsafeDenseCastMap`] pin it to `SlotMap` or `DenseSlotMap`.
pub mod any_haver;
pub mod cast_box;
pub mod cast_key;
pub mod cast_map;
pub mod dyn_key;
pub mod map_id;
pub mod slotmap_trait;
pub mod type_tagged_ptr;
pub mod unsafe_cast_map;

pub use any_haver::{type_id_from_meta, AnyHaver};
pub use cast_box::CastBox;
pub use cast_key::{CastKey, InnerKey};
pub use cast_map::{BoxCastMap, BoxDenseCastMap, CastMap, CastMapG, DenseCastMap};
pub use dyn_key::DynKey;
pub use slotmap_trait::{DenseSlots, SlotMapTrait, SparseSlots};
pub use type_tagged_ptr::{ConcreteTypeId, TaggedHandle, TypeTaggedBox, TypeTaggedPtr};
pub use unsafe_cast_map::{
    UnsafeBoxCastMap, UnsafeBoxDenseCastMap, UnsafeCastMap, UnsafeCastMapG, UnsafeDenseCastMap,
};
