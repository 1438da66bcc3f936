//! Concrete type identity for the cast maps.
//!
//! Every stored value carries the [`TypeId`] of its concrete type, and every
//! [`CastKey`](crate::cast_key::CastKey) carries the concrete type id implied
//! by its pointer metadata. The checked lookups of
//! [`CastMapG`](crate::cast_map::CastMapG) compare the two; this module holds
//! the pieces of `std::any` that comparison rests on.
//!
//! [`AnyHaver`] exposes the concrete type id of a value. It is implemented for
//! every `'static` sized type; a trait object reaches it by naming `AnyHaver`
//! as a supertrait, which puts `haver_type_id` in its vtable. The checked
//! lookups require `T: AnyHaver`, so a key typed `dyn Any` (whose trait has no
//! such supertrait) cannot be used with them.

use std::any::TypeId;
use std::marker::PhantomData;
use vstd::prelude::*;

verus! {

#[verifier::external_type_specification]
#[verifier::external_body]
pub struct ExTypeId(TypeId);

/// The type id of `T`: the value `TypeId::of::<T>()` returns.
///
/// A value that depends on the type `T` alone and on nothing else; which
/// value it is, nothing in this crate says. Only [`type_id_of`] ties it to
/// `std`, by returning it.
pub closed spec fn type_id_spec<T: ?Sized + 'static>() -> TypeId {
    arbitrary::<(TypeId, PhantomData<T>)>().0
}

/// The [`TypeId`] of `T`, from `std::any::TypeId::of`.
///
/// Claims that the call returns [`type_id_spec`] of `T`: the same id every
/// time for one type. `std` documents a `TypeId` as the globally unique
/// identifier of a type. Nothing is claimed of how the ids of two distinct
/// types compare.
#[verifier::external_body]
pub(crate) fn type_id_of<T: ?Sized + 'static>() -> (r: TypeId)
    ensures
        r == type_id_spec::<T>(),
{
    TypeId::of::<T>()
}

/// Compares two type ids with `TypeId`'s `PartialEq::eq`.
///
/// Claims that the comparison is the identity of the two ids: `std`
/// documents a `TypeId` as a globally unique identifier of a type, and its
/// equality as equality of the types they identify.
#[verifier::external_body]
pub(crate) fn type_ids_equal(a: &TypeId, b: &TypeId) -> (r: bool)
    ensures
        r == (*a == *b),
{
    *a == *b
}

/// Exposes the concrete [`TypeId`] of a (possibly type-erased) value.
///
/// Implemented for every `'static` sized type; trait objects get it by
/// declaring `AnyHaver` as a supertrait, so that the call dispatches to the
/// concrete type's implementation.
pub trait AnyHaver: 'static {
    /// Returns the [`TypeId`] of the concrete type of `self`.
    fn haver_type_id(&self) -> TypeId;
}

impl<T: 'static> AnyHaver for T {
    /// For a sized value, the type id of its own type.
    fn haver_type_id(&self) -> (r: TypeId)
        ensures
            r == type_id_spec::<T>(),
    {
        type_id_of::<T>()
    }
}

/// A sized value reports the type id of its own type, whatever the value:
/// every call of `haver_type_id` on a `T` gives `TypeId::of::<T>()`.
pub proof fn law_sized_haver_reports_own_type<T: 'static>(value: &T, r: TypeId)
    requires
        call_ensures(<T as AnyHaver>::haver_type_id, (value,), r),
    ensures
        r == type_id_spec::<T>(),
{
}

/// Recovers the concrete type id implied by a key's pointer metadata.
///
/// A [`CastKey`](crate::cast_key::CastKey) represents its metadata by the
/// concrete type id that metadata describes (for a sized `T`, the id of `T`;
/// for a trait object, the id of the type behind its vtable), so recovering
/// the id gives that value back unchanged.
pub fn type_id_from_meta<T: ?Sized + AnyHaver>(metadata: TypeId) -> (r: TypeId)
    ensures
        r == metadata,
{
    metadata
}

} // verus!
