//! Keys of the cast maps.
//!
//! [`InnerKey`] is the backing `slotmap` key, held in its stable 64-bit
//! representation (`KeyData::as_ffi`). [`CastKey<T>`] pairs it with the
//! pointer metadata of `T`; the metadata is represented by the concrete
//! [`TypeId`] it describes, which is all the cast maps read from it.

use std::any::TypeId;
use std::marker::PhantomData;
use vstd::prelude::*;

verus! {

/// Whether `bits` is the stable representation of a `slotmap` key: the low
/// bit of its version half, which `slotmap` sets for every issued key, is set.
pub open spec fn canonical_key_bits(bits: u64) -> bool {
    bits | 0x1_0000_0000u64 == bits
}

/// A backing `slotmap` key (the counterpart of `slotmap::DefaultKey`), held
/// as the 64-bit value `slotmap` issues for it.
#[derive(Clone, Copy, PartialEq, Eq, Structural, Debug, Hash)]
pub struct InnerKey {
    bits: u64,
}

impl View for InnerKey {
    type V = u64;

    closed spec fn view(&self) -> u64 {
        self.bits
    }
}

impl InnerKey {
    #[verifier::type_invariant]
    spec fn issued(self) -> bool {
        canonical_key_bits(self.bits)
    }

    /// Wraps a key value issued by `slotmap`.
    pub(crate) fn from_bits(bits: u64) -> (r: InnerKey)
        requires
            canonical_key_bits(bits),
        ensures
            r@ == bits,
    {
        InnerKey { bits }
    }

    /// Two backing keys with the same representation are the same key.
    pub proof fn lemma_view_injective(self, other: InnerKey)
        requires
            self@ == other@,
        ensures
            self == other,
    {
    }

    /// The 64-bit representation of this key.
    pub fn as_ffi(&self) -> (r: u64)
        ensures
            r == self@,
            canonical_key_bits(r),
    {
        proof {
            use_type_invariant(self);
        }
        self.bits
    }
}

/// A typed key: the backing `slotmap` key plus the pointer metadata of `T`,
/// represented by the concrete type id that metadata describes.
///
/// Equality compares the backing keys only.
#[derive(Debug)]
pub struct CastKey<T: ?Sized> {
    key: InnerKey,
    metadata: TypeId,
    marker: PhantomData<T>,
}

impl<T: ?Sized> CastKey<T> {
    /// The backing key, as a specification value.
    pub closed spec fn key_spec(self) -> InnerKey {
        self.key
    }

    /// The concrete type id described by this key's metadata.
    pub closed spec fn meta_spec(self) -> TypeId {
        self.metadata
    }

    /// The key built from a backing key and metadata.
    pub closed spec fn assemble(key: InnerKey, metadata: TypeId) -> CastKey<T> {
        CastKey { key, metadata, marker: PhantomData }
    }

    /// The parts of an assembled key are the parts it was built from.
    pub broadcast proof fn lemma_assemble(key: InnerKey, metadata: TypeId)
        ensures
            #[trigger] Self::assemble(key, metadata).key_spec() == key,
            Self::assemble(key, metadata).meta_spec() == metadata,
    {
    }

    /// A key is the key assembled from its parts.
    pub proof fn lemma_parts(self)
        ensures
            Self::assemble(self.key_spec(), self.meta_spec()) == self,
    {
    }

    /// Builds a cast key from a backing key and metadata.
    ///
    /// Any type id is accepted, also for a sized `T` whose metadata would
    /// otherwise describe `T` itself: a key built here describes whatever
    /// `metadata` names, and the checked lookups compare that with the stored
    /// type id, so such a key resolves exactly where a value of the named
    /// type is stored.
    pub fn from_raw_parts(key: InnerKey, metadata: TypeId) -> (r: CastKey<T>)
        ensures
            r == Self::assemble(key, metadata),
            r.key_spec() == key,
            r.meta_spec() == metadata,
    {
        CastKey { key, metadata, marker: PhantomData }
    }

    /// Returns the 64-bit representation of the backing key.
    pub fn key_data(&self) -> (r: u64)
        ensures
            r == self.key_spec()@,
            canonical_key_bits(r),
    {
        self.key.as_ffi()
    }

    /// Returns the pointer metadata (the concrete type id it describes).
    pub fn metadata(&self) -> (r: TypeId)
        ensures
            r == self.meta_spec(),
    {
        self.metadata
    }

    /// Strips the metadata, producing the backing key.
    pub fn inner_key(&self) -> (r: InnerKey)
        ensures
            r == self.key_spec(),
    {
        self.key
    }

    /// Shared access to the backing key.
    pub fn inner_key_ref(&self) -> (r: &InnerKey)
        ensures
            *r == self.key_spec(),
    {
        &self.key
    }

    /// Re-types the key to `U`, for a `U` that `T` unsizes to (e.g.
    /// `CastKey<Dog>` to `CastKey<dyn Any>`). The backing key and the concrete
    /// type the metadata describes are unchanged.
    pub fn upcast<U: ?Sized>(self) -> (r: CastKey<U>)
        ensures
            r.key_spec() == self.key_spec(),
            r.meta_spec() == self.meta_spec(),
    {
        CastKey { key: self.key, metadata: self.metadata, marker: PhantomData }
    }
}

impl<T: ?Sized> Clone for CastKey<T> {
    fn clone(&self) -> (r: Self)
        ensures
            r == *self,
    {
        CastKey { key: self.key, metadata: self.metadata, marker: PhantomData }
    }
}

impl<T: ?Sized> Copy for CastKey<T> {
}

impl<T: ?Sized> PartialEq for CastKey<T> {
    fn eq(&self, other: &Self) -> (r: bool) {
        self.key == other.key
    }
}

impl<T: ?Sized> Eq for CastKey<T> {
}

impl<T: ?Sized> vstd::std_specs::cmp::PartialEqSpecImpl for CastKey<T> {
    open spec fn obeys_eq_spec() -> bool {
        true
    }

    open spec fn eq_spec(&self, other: &Self) -> bool {
        self.key_spec() == other.key_spec()
    }
}

/// A key that names a backing slot: the backing key itself or a typed key.
pub trait SlotKey: Copy {
    /// The backing key, as a specification value.
    spec fn backing_spec(&self) -> InnerKey;

    /// The backing key.
    fn backing(&self) -> (r: InnerKey)
        ensures
            r == self.backing_spec(),
    ;
}

impl SlotKey for InnerKey {
    open spec fn backing_spec(&self) -> InnerKey {
        *self
    }

    fn backing(&self) -> (r: InnerKey) {
        *self
    }
}

impl<T: ?Sized> SlotKey for CastKey<T> {
    open spec fn backing_spec(&self) -> InnerKey {
        self.key_spec()
    }

    fn backing(&self) -> (r: InnerKey) {
        self.key
    }
}

/// The facts about assembling a key from its parts.
pub broadcast group group_cast_key {
    CastKey::lemma_assemble,
}

} // verus!
