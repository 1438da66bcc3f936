//! [`DynKey`]: a borrowed, pointer-shaped form of a [`CastKey`].
//!
//! A `DynKey` is the key reshaped as one address plus the key's metadata.
//! When a backing key fits in an address (a 64-bit target), the address is
//! the key's own 64-bit representation, which is never zero; otherwise the
//! address points at the borrowed key's backing key. [`DynKey::key`] reads
//! the key back either way.

use std::any::TypeId;
use std::marker::PhantomData;
use vstd::prelude::*;

use crate::any_haver::{type_id_of, type_id_spec, type_ids_equal, AnyHaver};
use crate::cast_key::{canonical_key_bits, CastKey, InnerKey};

verus! {

/// Whether a backing key (64 bits) fits in an address on this target.
pub open spec fn key_fits_address() -> bool {
    usize::BITS >= 64
}

/// Whether a backing key fits in an address on this target.
fn packs_in_address() -> (r: bool)
    ensures
        r == key_fits_address(),
{
    usize::BITS >= 64
}

/// Where a [`DynKey`] keeps its backing key.
#[derive(Clone, Copy)]
enum KeyAddress<'a> {
    /// The key's own 64-bit representation, used as the address.
    Packed(usize),
    /// The address of the borrowed key's backing key.
    Borrowed(&'a InnerKey),
}

/// A borrowed, dyn-dispatchable form of a [`CastKey<T>`]: one address that
/// carries the backing key, plus the key's metadata.
pub struct DynKey<'a, T: ?Sized> {
    addr: KeyAddress<'a>,
    metadata: TypeId,
    marker: PhantomData<&'a T>,
}

impl<'a, T: ?Sized> DynKey<'a, T> {
    /// A packed address is the nonzero representation of an issued key, and
    /// is only used where a key fits in an address.
    #[verifier::type_invariant]
    spec fn well_formed(self) -> bool {
        match self.addr {
            KeyAddress::Packed(addr) => {
                &&& key_fits_address()
                &&& addr != 0
                &&& canonical_key_bits(addr as u64)
            },
            KeyAddress::Borrowed(_) => true,
        }
    }

    /// The backing key this `DynKey` carries.
    pub closed spec fn backing_spec(self) -> u64 {
        match self.addr {
            KeyAddress::Packed(addr) => addr as u64,
            KeyAddress::Borrowed(k) => k@,
        }
    }

    /// The metadata this `DynKey` carries (the concrete type id it describes).
    pub closed spec fn meta_spec(self) -> TypeId {
        self.metadata
    }

    /// Borrows a key into its dyn-dispatchable form.
    pub fn new(key: &'a CastKey<T>) -> (r: Self)
        ensures
            r.backing_spec() == key.key_spec()@,
            r.meta_spec() == key.meta_spec(),
    {
        let bits = key.key_data();
        let addr = if packs_in_address() {
            assert(bits != 0) by (bit_vector)
                requires
                    bits | 0x1_0000_0000u64 == bits,
            ;
            assert(usize::MAX == u64::MAX);
            let packed = bits as usize;
            assert(packed as u64 == bits);
            KeyAddress::Packed(packed)
        } else {
            KeyAddress::Borrowed(key.inner_key_ref())
        };
        DynKey { addr, metadata: key.metadata(), marker: PhantomData }
    }

    /// Recovers the key this `DynKey` was made from.
    pub fn key(self) -> (r: CastKey<T>)
        ensures
            r.key_spec()@ == self.backing_spec(),
            r.meta_spec() == self.meta_spec(),
    {
        proof {
            use_type_invariant(&self);
        }
        let inner = match self.addr {
            KeyAddress::Packed(addr) => InnerKey::from_bits(addr as u64),
            KeyAddress::Borrowed(k) => *k,
        };
        CastKey::from_raw_parts(inner, self.metadata)
    }
}

impl<'a, T: ?Sized + AnyHaver> DynKey<'a, T> {
    /// Re-types this `DynKey` to the concrete type whose type id is
    /// `concrete`: `Some` exactly when the key's metadata describes that
    /// type.
    pub fn downcast_with_id<C: 'static>(self, concrete: TypeId) -> (r: Option<DynKey<'a, C>>)
        ensures
            r is Some == (self.meta_spec() == concrete),
            r matches Some(d) ==> d.backing_spec() == self.backing_spec() && d.meta_spec() == concrete,
    {
        proof {
            use_type_invariant(&self);
        }
        if type_ids_equal(&self.metadata, &concrete) {
            Some(DynKey { addr: self.addr, metadata: concrete, marker: PhantomData })
        } else {
            None
        }
    }

    /// Re-types this `DynKey` to the sized `C` using only its metadata; no
    /// map is involved. `None` if the metadata describes another type.
    pub fn downcast<C: 'static>(self) -> (r: Option<DynKey<'a, C>>)
        ensures
            r is Some == (self.meta_spec() == type_id_spec::<C>()),
            r matches Some(d) ==> d.backing_spec() == self.backing_spec() && d.meta_spec() == self.meta_spec(),
    {
        self.downcast_with_id::<C>(type_id_of::<C>())
    }
}

/// `downcast::<C>` succeeds exactly when the key's metadata describes the
/// concrete type `C` (is `TypeId::of::<C>()`); the re-typed key carries the
/// same backing key and that same metadata.
pub proof fn law_dyn_downcast_accepts_exactly_its_type<'a, T: ?Sized + AnyHaver, C: 'static>(
    dyn_key: DynKey<'a, T>,
    r: Option<DynKey<'a, C>>,
)
    requires
        call_ensures(DynKey::<'a, T>::downcast::<C>, (dyn_key,), r),
    ensures
        r is Some <==> dyn_key.meta_spec() == type_id_spec::<C>(),
        r matches Some(d) ==> d.backing_spec() == dyn_key.backing_spec() && d.meta_spec() == type_id_spec::<C>(),
{
}

impl<'a, T: ?Sized> Clone for DynKey<'a, T> {
    fn clone(&self) -> (r: Self)
        ensures
            r == *self,
    {
        proof {
            use_type_invariant(self);
        }
        DynKey { addr: self.addr, metadata: self.metadata, marker: PhantomData }
    }
}

impl<'a, T: ?Sized> Copy for DynKey<'a, T> {
}

impl<T: ?Sized> CastKey<T> {
    /// Borrows this key into its dyn-dispatchable form.
    pub fn as_dyn(&self) -> (r: DynKey<'_, T>)
        ensures
            r.backing_spec() == self.key_spec()@,
            r.meta_spec() == self.meta_spec(),
    {
        DynKey::new(self)
    }
}

/// A key turned into a [`DynKey`] and back is the same key.
pub proof fn law_dyn_key_round_trip<T: ?Sized>(key: CastKey<T>, dyn_key: DynKey<T>, back: CastKey<T>)
    requires
        dyn_key.backing_spec() == key.key_spec()@,
        dyn_key.meta_spec() == key.meta_spec(),
        back.key_spec()@ == dyn_key.backing_spec(),
        back.meta_spec() == dyn_key.meta_spec(),
    ensures
        back == key,
{
    back.key_spec().lemma_view_injective(key.key_spec());
    back.lemma_parts();
    key.lemma_parts();
}

} // verus!
