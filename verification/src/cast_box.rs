//! [`CastBox`]: an owning box that remembers the concrete [`TypeId`] of the
//! value it was built from.

use std::any::TypeId;
use vstd::prelude::*;

use crate::any_haver::{type_id_of, type_id_spec};
use crate::type_tagged_ptr::ConcreteTypeId;

verus! {

/// An owning box that records the concrete [`TypeId`] of its value when it
/// is built; the id stays with the box however the value is later viewed.
pub struct CastBox<T: ?Sized> {
    type_id: TypeId,
    inner: Box<T>,
}

impl<T: ?Sized> CastBox<T> {
    /// The box holding the value.
    pub closed spec fn boxed(self) -> Box<T> {
        self.inner
    }

    /// The recorded type id.
    pub closed spec fn tag(self) -> TypeId {
        self.type_id
    }
}

impl<T> CastBox<T> {
    /// The boxed value.
    pub closed spec fn value(self) -> T {
        *self.inner
    }

    /// The boxed value is the value in the box.
    pub proof fn lemma_boxed_value(self)
        ensures
            *self.boxed() == self.value(),
    {
    }

    /// Shared access to the boxed value.
    pub fn get(&self) -> (r: &T)
        ensures
            *r == self.value(),
    {
        &self.inner
    }
}

impl<T: 'static> CastBox<T> {
    /// Boxes `value`, recording `TypeId::of::<T>()`.
    pub fn new(value: T) -> (r: Self)
        ensures
            r.value() == value,
            r.tag() == type_id_spec::<T>(),
    {
        CastBox { type_id: type_id_of::<T>(), inner: Box::new(value) }
    }
}

/// A new box records the type id of the value's own type: whatever the
/// value, `CastBox::new` reports `TypeId::of::<T>()` as its concrete type id.
pub proof fn law_new_cast_box_records_value_type<T: 'static>(value: T, r: CastBox<T>)
    requires
        call_ensures(CastBox::<T>::new, (value,), r),
    ensures
        r.tag() == type_id_spec::<T>(),
        r.concrete_type_id_spec() == type_id_spec::<T>(),
        r.value() == value,
{
}

impl<T: ?Sized> std::ops::Deref for CastBox<T> {
    type Target = T;

    fn deref(&self) -> (r: &T)
        ensures
            r == &*self.boxed(),
    {
        &self.inner
    }
}

impl<T: ?Sized> ConcreteTypeId for CastBox<T> {
    open spec fn concrete_type_id_spec(&self) -> TypeId {
        self.tag()
    }

    fn concrete_type_id(&self) -> (r: TypeId) {
        self.type_id
    }
}

} // verus!
