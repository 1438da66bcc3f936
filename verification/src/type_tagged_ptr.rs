//! [`TypeTaggedPtr`]: a stored pointer paired with the concrete [`TypeId`]
//! of its pointee, and the [`ConcreteTypeId`] trait the checked maps read it
//! through.
//!
//! [`CastMapG`](crate::cast_map::CastMapG) compares the type id a key's
//! metadata describes with the type id stored next to the value;
//! [`TypeTaggedPtr`] is where that id is stored.

use std::any::TypeId;
use vstd::prelude::*;

use crate::any_haver::{type_id_of, type_id_spec};

verus! {

/// A pointer `P` paired with the concrete [`TypeId`] of the value it points
/// at.
///
/// The id is recorded at construction and kept, unchanged, however the
/// pointer is later viewed.
pub struct TypeTaggedPtr<P> {
    ptr: P,
    type_id: TypeId,
}

/// [`TypeTaggedPtr`] over an owning [`Box`].
pub type TypeTaggedBox<T> = TypeTaggedPtr<Box<T>>;

/// What a cast map stores in a slot: a handle standing for the stored
/// pointer (by which its owner finds the value again), tagged with the
/// concrete type id of that value.
pub type TaggedHandle = TypeTaggedPtr<u64>;

impl<P> TypeTaggedPtr<P> {
    /// The wrapped pointer.
    pub closed spec fn pointer(self) -> P {
        self.ptr
    }

    /// The recorded concrete type id.
    pub closed spec fn tag(self) -> TypeId {
        self.type_id
    }

    /// This tagged pointer with its pointer replaced and its type id kept.
    pub closed spec fn with_pointer(self, ptr: P) -> Self {
        TypeTaggedPtr { ptr, type_id: self.type_id }
    }

    /// Replacing the pointer keeps the type id.
    pub broadcast proof fn lemma_with_pointer(self, ptr: P)
        ensures
            (#[trigger] self.with_pointer(ptr)).pointer() == ptr,
            self.with_pointer(ptr).tag() == self.tag(),
    {
    }

    /// Two tagged pointers with the same pointer and type id are equal.
    pub proof fn lemma_ext_eq(self, other: Self)
        requires
            self.pointer() == other.pointer(),
            self.tag() == other.tag(),
        ensures
            self == other,
    {
    }

    /// Wraps `ptr`, recording `TypeId::of::<P::Target>()`.
    pub fn from_ptr<Target: 'static>(ptr: P) -> (r: Self)
        where P: std::ops::Deref<Target = Target>,
        ensures
            r.pointer() == ptr,
            r.tag() == type_id_spec::<Target>(),
    {
        TypeTaggedPtr { type_id: type_id_of::<Target>(), ptr }
    }

    /// Assembles a tagged pointer from a pointer and the concrete type id of
    /// its pointee.
    pub fn from_raw_parts(ptr: P, type_id: TypeId) -> (r: Self)
        ensures
            r.pointer() == ptr,
            r.tag() == type_id,
    {
        TypeTaggedPtr { ptr, type_id }
    }

    /// Shared access to the wrapped pointer.
    pub fn inner_ref(&self) -> (r: &P)
        ensures
            *r == self.pointer(),
    {
        &self.ptr
    }

    /// Exclusive access to the wrapped pointer; the recorded type id is kept,
    /// so whatever the pointer is changed to counts as a value of the same
    /// concrete type.
    pub fn inner_mut(&mut self) -> (r: &mut P)
        ensures
            *r == old(self).pointer(),
            *final(self) == old(self).with_pointer(*final(r)),
    {
        &mut self.ptr
    }

    /// Unwraps the pointer, discarding the recorded type id.
    pub fn inner(self) -> (r: P)
        ensures
            r == self.pointer(),
    {
        self.ptr
    }
}

impl<T: 'static> TypeTaggedPtr<Box<T>> {
    /// Boxes `value`, recording `TypeId::of::<T>()`.
    pub fn new(value: T) -> (r: Self)
        ensures
            *r.pointer() == value,
            r.tag() == type_id_spec::<T>(),
    {
        TypeTaggedPtr { ptr: Box::new(value), type_id: type_id_of::<T>() }
    }
}

/// Boxing a value records the type id of the value's own type, `T`, not of
/// the box: whatever the value, `TypeTaggedBox::new` tags it with
/// `TypeId::of::<T>()`.
pub proof fn law_new_box_records_value_type<T: 'static>(value: T, r: TypeTaggedPtr<Box<T>>)
    requires
        call_ensures(TypeTaggedPtr::<Box<T>>::new, (value,), r),
    ensures
        r.tag() == type_id_spec::<T>(),
        *r.pointer() == value,
{
}

/// Wrapping a pointer records the type id of what it points at: whatever
/// the pointer, `from_ptr` tags it with `TypeId::of::<P::Target>()`.
pub proof fn law_from_ptr_records_target_type<P: std::ops::Deref<Target = Target>, Target: 'static>(
    ptr: P,
    r: TypeTaggedPtr<P>,
)
    requires
        call_ensures(TypeTaggedPtr::<P>::from_ptr::<Target>, (ptr,), r),
    ensures
        r.tag() == type_id_spec::<Target>(),
        r.pointer() == ptr,
{
}

impl<P: std::ops::Deref> std::ops::Deref for TypeTaggedPtr<P> {
    type Target = P::Target;

    fn deref(&self) -> (r: &P::Target)
        ensures
            call_ensures(P::deref, (&self.pointer(),), r),
    {
        self.ptr.deref()
    }
}

impl<P: Copy> Clone for TypeTaggedPtr<P> {
    fn clone(&self) -> (r: Self)
        ensures
            r == *self,
    {
        *self
    }
}

impl<P: Copy> Copy for TypeTaggedPtr<P> {
}

/// A stored pointer that knows the concrete [`TypeId`] of its pointee.
pub trait ConcreteTypeId {
    /// The concrete type id, as a specification value.
    spec fn concrete_type_id_spec(&self) -> TypeId;

    /// The concrete type id of this pointer's pointee.
    fn concrete_type_id(&self) -> (r: TypeId)
        ensures
            r == self.concrete_type_id_spec(),
    ;
}

impl<P> ConcreteTypeId for TypeTaggedPtr<P> {
    open spec fn concrete_type_id_spec(&self) -> TypeId {
        self.tag()
    }

    fn concrete_type_id(&self) -> (r: TypeId) {
        self.type_id
    }
}

/// The facts about replacing a tagged pointer's pointer.
pub broadcast group group_type_tagged_ptr {
    TypeTaggedPtr::lemma_with_pointer,
}

} // verus!
