//! Type keys and type-erased values.
//!
//! The stores keep values of arbitrary types side by side. A value is kept as
//! an [`Erased`] box, found again by the [`TypeId`] of what it holds, and
//! handed back typed by a checked downcast. Everything that touches
//! `dyn Any` is confined to the trusted functions of this file.

use std::any::Any;
use std::any::TypeId;
use std::cell::RefCell;
use std::rc::Rc;
use vstd::prelude::*;

verus! {

/// `std::any::TypeId`, the run-time identity of a type. It is opaque here:
/// the stores only compare type keys for equality.
#[verifier::external_type_specification]
#[verifier::external_body]
pub struct ExTypeId(TypeId);

/// `std::cell::RefCell`, the dynamically borrow-checked cell that component
/// slots share. Its content is invisible to the proofs.
#[verifier::external_type_specification]
#[verifier::external_body]
#[verifier::reject_recursive_types(T)]
pub struct ExRefCell<T: ?Sized>(RefCell<T>);

/// A value whose static type has been forgotten: a `Box<dyn Any>`. The
/// box is hidden from the proofs, which cannot speak of trait objects; what
/// they know of it is [`held_type`].
#[verifier::external_body]
#[derive(Debug)]
pub struct Erased {
    inner: Box<dyn Any>,
}

/// A component slot's content: a shared cell around an erased value.
///
/// Cloning the handle shares the cell. Access to the value is checked when
/// it is borrowed: any number of readers or one writer at a time, slot by
/// slot. `borrow` and `borrow_mut` panic on a conflicting borrow,
/// `try_borrow` and `try_borrow_mut` report it.
pub type Component = Rc<RefCell<Erased>>;

/// The type key of the value inside an erased box, as `Any::type_id`
/// reports it.
pub uninterp spec fn held_type(value: Erased) -> TypeId;

/// `TypeId::of::<T>()`: the key of `T`. Nothing is claimed of the key.
#[verifier::external_body]
pub(crate) fn type_key_of<T: 'static>() -> (key: TypeId) {
    TypeId::of::<T>()
}

/// `TypeId`'s `==`: two keys compare equal exactly when they are the same
/// key.
#[verifier::external_body]
pub(crate) fn same_key(a: &TypeId, b: &TypeId) -> (same: bool)
    ensures
        same == (*a == *b),
{
    a == b
}

/// `Box::new`, with the box taken as a `Box<dyn Any>`. Nothing is claimed
/// of the box.
#[verifier::external_body]
pub(crate) fn erase<T: 'static>(data: T) -> (value: Erased) {
    Erased { inner: Box::new(data) }
}

/// `Any::type_id` of the boxed value: the key of the type that was erased.
#[verifier::external_body]
pub(crate) fn erased_key(value: &Erased) -> (key: TypeId)
    ensures
        key == held_type(*value),
{
    (*value.inner).type_id()
}

/// `<dyn Any>::downcast_ref`: the boxed value, if it is a `T`. Nothing is
/// claimed of the result.
#[verifier::external_body]
pub(crate) fn erased_ref<T: 'static>(value: &Erased) -> (typed: Option<&T>) {
    value.inner.downcast_ref::<T>()
}

/// `<dyn Any>::downcast_mut`: the boxed value for writing, if it is a `T`.
/// Writing through the reference cannot change the type of what the box
/// holds, and a failed downcast leaves the box as it was.
#[verifier::external_body]
pub(crate) fn erased_mut<T: 'static>(value: &mut Erased) -> (typed: Option<&mut T>)
    ensures
        held_type(*final(value)) == held_type(*old(value)),
        typed is None ==> *final(value) == *old(value),
{
    value.inner.downcast_mut::<T>()
}

/// The value that `RefCell::new` made a cell around: what the cell held
/// when it was new, whatever was put there since.
pub uninterp spec fn made_of(cell: RefCell<Erased>) -> Erased;

/// `Rc::clone`: a second handle to the same cell, equal to the first as a
/// handle.
#[verifier::external_body]
pub(crate) fn share(cell: &Component) -> (handle: Component)
    ensures
        handle == *cell,
{
    Rc::clone(cell)
}

impl Erased {
    /// Erases the type of `data`.
    pub fn new<T: 'static>(data: T) -> (value: Erased) {
        erase(data)
    }

    /// The key of the type that this box holds.
    pub fn key(&self) -> (key: TypeId)
        ensures
            key == held_type(*self),
    {
        erased_key(self)
    }

    /// The boxed value, if it is a `T`.
    pub fn downcast_ref<T: 'static>(&self) -> (typed: Option<&T>) {
        erased_ref::<T>(self)
    }

    /// The boxed value for writing, if it is a `T`. The box keeps holding a
    /// value of the same type whatever is written.
    pub fn downcast_mut<T: 'static>(&mut self) -> (typed: Option<&mut T>)
        ensures
            held_type(*final(self)) == held_type(*old(self)),
            typed is None ==> *final(self) == *old(self),
    {
        erased_mut::<T>(self)
    }
}

/// The key of type `T`.
pub fn type_key<T: 'static>() -> (key: TypeId) {
    type_key_of::<T>()
}

/// A fresh shared cell around `value`.
pub fn new_component(value: Erased) -> (cell: Component)
    ensures
        made_of(*cell) == value,
{
    Rc::new(new_cell(value))
}

/// The type key of the value that the component cell `cell` was made
/// around.
pub open spec fn component_type(cell: Component) -> TypeId {
    held_type(made_of(*cell))
}

/// `RefCell::new`: a fresh cell that holds `value`.
#[verifier::external_body]
pub(crate) fn new_cell(value: Erased) -> (cell: RefCell<Erased>)
    ensures
        made_of(cell) == value,
{
    RefCell::new(value)
}

} // verus!
