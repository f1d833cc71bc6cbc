//! A container that owns one heap value of any type and gives it back only
//! under the type it was stored with.
//!
//! Verus does not look into a `Box<dyn Any>`, so what the standard library
//! does with one is stated here, not proved. Two predicates carry those
//! statements. `identifies::<T>(id)` says that `id` is the identity of the
//! type `T`, and `holds::<T>(content, value)` says that `content` owns
//! `value` as a `T`. Each stands for the pairs of argument and result of one
//! call of the standard library, `TypeId::of` and `Box::new`, and the
//! contracts of the other calls say how they go together. What the box does
//! with the answers is proved.

use std::any::{Any, TypeId};

use vstd::prelude::*;

use crate::error::{Error, ErrorType};

verus! {

/// The result of an access to a `BlackBox`.
pub type BlackBoxResult<T> = Result<T, Error>;

/// `std::any::TypeId`: the identity of a type. Nothing is known of a value
/// but whether it equals another.
#[verifier::external_type_specification]
#[verifier::external_body]
pub struct ExTypeId(TypeId);

/// The owner of one heap value whose type is known at run time only. It
/// holds a `Box<dyn Any>`; dropping it drops the value and frees its memory.
#[verifier::external_body]
#[derive(Debug)]
pub struct Erased {
    boxed: Box<dyn Any>,
}

/// The identity of the type of the value that `content` owns: what
/// `<dyn Any>::type_id` returns for that value.
pub uninterp spec fn held_type(content: Erased) -> TypeId;

/// Whether `id` is the identity of the type `T`: whether `TypeId::of::<T>()`
/// returns it.
pub closed spec fn identifies<T: 'static>(id: TypeId) -> bool {
    call_ensures(type_id_of::<T>, (), id)
}

/// Whether `content` owns `value` as a `T`: whether it is what boxing `value`
/// gives.
pub closed spec fn holds<T: 'static>(content: Erased, value: T) -> bool {
    call_ensures(erase::<T>, (value,), content)
}

/// `TypeId::of`: the identity of the type `T`. The contract says nothing of
/// the value; `identifies` stands for what is returned.
#[verifier::external_body]
fn type_id_of<T: 'static>() -> (id: TypeId) {
    TypeId::of::<T>()
}

/// `==` on `TypeId`: whether the two identities are the same value.
#[verifier::external_body]
fn same_type(left: &TypeId, right: &TypeId) -> (same: bool)
    ensures
        same == (*left == *right),
{
    left == right
}

/// `Box::new`, and the coercion of the box to `Box<dyn Any>`: moves `value`
/// to the heap. The contract says that the type of what the box owns is `T`,
/// under whatever identity `T` has; `holds` stands for the box that is
/// returned.
#[verifier::external_body]
fn erase<T: 'static>(value: T) -> (content: Erased)
    ensures
        forall|id: TypeId| identifies::<T>(id) ==> held_type(content) == id,
{
    Erased { boxed: Box::new(value) }
}

/// `<dyn Any>::downcast_ref`: the stored value if its type is `T`, else
/// `None`. The contract says that it is `Some` exactly if the identity of
/// `T` is that of the type of the stored value, and that it then refers to
/// the value that the content owns.
#[verifier::external_body]
fn content_ref<T: 'static>(content: &Erased) -> (value: Option<&T>)
    ensures
        forall|id: TypeId|
            identifies::<T>(id) ==> ((value is Some) == (held_type(*content) == id)),
        value matches Some(found) ==> forall|held: T|
            holds::<T>(*content, held) ==> held == *found,
{
    content.boxed.downcast_ref::<T>()
}

/// `<dyn Any>::downcast_mut`: the stored value if its type is `T`, else
/// `None`. The contract says that it is `Some` exactly if the identity of
/// `T` is that of the type of the stored value; that it then refers to the
/// value that the content owns, and that the content owns afterwards what the
/// reference is left with; that the type of the stored value stays; and that
/// the call itself writes nothing: where it returns `None`, the content is as
/// it was.
#[verifier::external_body]
fn content_mut<T: 'static>(content: &mut Erased) -> (value: Option<&mut T>)
    ensures
        value is None ==> *final(content) == *old(content),
        held_type(*final(content)) == held_type(*old(content)),
        forall|id: TypeId|
            identifies::<T>(id) ==> ((value is Some) == (held_type(*old(content)) == id)),
        value matches Some(found) ==> {
            &&& forall|held: T| holds::<T>(*old(content), held) ==> held == *found
            &&& holds::<T>(*final(content), *final(found))
        },
{
    content.boxed.downcast_mut::<T>()
}

/// A box for a value of any type, like a C void pointer that remembers what
/// it points to.
///
/// ```
/// use bugeutils::black_box::BlackBox;
///
/// // Storing an u64 in the heap
/// let boxed_u64: BlackBox = BlackBox::new(123_u64);
///
/// // Storing an f32 in the heap
/// let boxed_f32: BlackBox = BlackBox::new(0.5_f32);
///
/// // `boxed_u64` and `boxed_f32` have the same type, `BlackBox`, though
/// // they own values of different types and sizes.
/// assert_eq!(*boxed_u64.get_ref::<u64>().unwrap(), 123);
///
/// // You must request the correct type when retrieving the value
/// assert!(boxed_f32.get_ref::<f32>().is_ok());
/// assert!(boxed_f32.get_ref::<f64>().is_err());
/// ```
///
/// The box does not show in its own type which type it holds, so boxes of
/// different contents can stand side by side. The price is that the type is
/// checked when the value is asked for: `get_ref` and `get_mut_ref` return an
/// error under any type but the stored one. They never hand out a reference
/// under another type.
///
/// When dropped, the box drops the value it owns.
#[derive(Debug)]
pub struct BlackBox {
    type_id: TypeId,
    content: Erased,
}

/// The description of the error of an access under the wrong type.
pub open spec fn incompatible_text() -> Seq<char> {
    "Incorrect unboxing type"@
}

/// Whether `e` is the error of an access under the wrong type.
pub open spec fn is_incompatible(e: Error) -> bool {
    e.kind() == ErrorType::NotCompatible && e.desc() == incompatible_text()
}

/// The error of an access under the wrong type.
fn incompatible() -> (e: Error)
    ensures
        is_incompatible(e),
{
    Error::new(ErrorType::NotCompatible, "Incorrect unboxing type")
}

impl BlackBox {
    /// The identity of the type that the box was made for.
    pub closed spec fn stored_type(&self) -> TypeId {
        self.type_id
    }

    /// The invariant of the box: the identity it was made for is that of the
    /// type of the value it owns.
    pub closed spec fn well_formed(&self) -> bool {
        self.type_id == held_type(self.content)
    }

    /// Whether the box owns `value` as a `T`.
    pub closed spec fn owns<T: 'static>(&self, value: T) -> bool {
        holds::<T>(self.content, value)
    }

    /// What `get_ref::<T>` answers: the value that the box owns if it was
    /// made for `T`, and the error of an access under the wrong type if not.
    pub open spec fn answers_ref<T: 'static>(&self, result: BlackBoxResult<&T>) -> bool {
        match result {
            Ok(found) => {
                &&& identifies::<T>(self.stored_type())
                &&& forall|held: T| self.owns(held) ==> held == *found
            },
            Err(e) => !identifies::<T>(self.stored_type()) && is_incompatible(e),
        }
    }

    /// Creates a new `BlackBox`, taking ownership of `value` and storing it
    /// on the heap. The box is made for `T` and owns `value`.
    pub fn new<T>(value: T) -> (boxed: Self) where T: 'static
        ensures
            boxed.well_formed(),
            identifies::<T>(boxed.stored_type()),
            boxed.owns(value),
    {
        let type_id = type_id_of::<T>();
        let content = erase(value);
        assert(identifies::<T>(type_id));
        Self { type_id, content }
    }

    /// Decides an access under the type whose identity is `requested`: it is
    /// let through exactly if that is the identity the box was made for.
    pub fn check(&self, requested: &TypeId) -> (result: BlackBoxResult<()>)
        ensures
            match result {
                Ok(()) => *requested == self.stored_type(),
                Err(e) => *requested != self.stored_type() && is_incompatible(e),
            },
    {
        if same_type(requested, &self.type_id) {
            Ok(())
        } else {
            Err(incompatible())
        }
    }

    /// Turns what was found in a box under the type asked for into the
    /// result of the access: the value that was found, or the error of an
    /// access under the wrong type where nothing was found.
    pub fn unboxed<R>(found: Option<R>) -> (result: BlackBoxResult<R>)
        ensures
            match found {
                Some(value) => result == Ok::<R, Error>(value),
                None => result matches Err(e) && is_incompatible(e),
            },
    {
        match found {
            Some(value) => Ok(value),
            None => Err(incompatible()),
        }
    }

    /// If `T` is the type of the value owned by the box, returns a reference
    /// to that value. Otherwise returns a `NotCompatible` error.
    pub fn get_ref<T>(&self) -> (result: BlackBoxResult<&T>) where T: 'static
        requires
            self.well_formed(),
        ensures
            self.answers_ref(result),
    {
        // The content is asked before the identities are compared: where the
        // comparison refuses, its answer shows that the box was not made for
        // `T`.
        let requested = type_id_of::<T>();
        let found = content_ref::<T>(&self.content);
        assert(identifies::<T>(requested));
        match self.check(&requested) {
            Ok(()) => Self::unboxed(found),
            Err(e) => Err(e),
        }
    }

    /// If `T` is the type of the value owned by the box, returns a mutable
    /// reference to that value. Otherwise returns a `NotCompatible` error and
    /// leaves the box as it was.
    ///
    /// What is written through the reference is what the box owns from then
    /// on; the type it was made for stays.
    pub fn get_mut_ref<T>(&mut self) -> (result: BlackBoxResult<&mut T>) where T: 'static
        requires
            old(self).well_formed(),
        ensures
            final(self).well_formed(),
            final(self).stored_type() == old(self).stored_type(),
            match result {
                Ok(found) => {
                    &&& identifies::<T>(old(self).stored_type())
                    &&& forall|held: T| old(self).owns(held) ==> held == *found
                    &&& final(self).owns(*final(found))
                },
                Err(e) => {
                    &&& !identifies::<T>(old(self).stored_type())
                    &&& is_incompatible(e)
                    &&& *final(self) == *old(self)
                },
            },
    {
        // The content is asked whatever the comparison says, as in `get_ref`.
        let requested = type_id_of::<T>();
        let admitted = self.check(&requested);
        let found = content_mut::<T>(&mut self.content);
        assert(identifies::<T>(requested));
        match admitted {
            Ok(()) => Self::unboxed(found),
            Err(e) => Err(e),
        }
    }
}

/// A box gives back what was put into it: where it was made for `T` and owns
/// `value`, as `new` leaves it, what `get_ref::<T>` answers is `Ok` of a
/// reference to `value`.
pub proof fn lemma_unboxes_what_was_boxed<T: 'static>(
    boxed: BlackBox,
    value: T,
    result: BlackBoxResult<&T>,
)
    requires
        boxed.well_formed(),
        identifies::<T>(boxed.stored_type()),
        boxed.owns(value),
        boxed.answers_ref(result),
    ensures
        result matches Ok(found) && *found == value,
{
}

/// A box refuses every other type: where it was made for `T`, and `U` has
/// none of the identities of `T`, what `get_ref::<U>` answers is the error of
/// an access under the wrong type.
pub proof fn lemma_refuses_another_type<T: 'static, U: 'static>(
    boxed: BlackBox,
    result: BlackBoxResult<&U>,
)
    requires
        boxed.well_formed(),
        identifies::<T>(boxed.stored_type()),
        forall|id: TypeId| !(identifies::<T>(id) && identifies::<U>(id)),
        boxed.answers_ref(result),
    ensures
        result matches Err(e) && is_incompatible(e),
{
}

} // verus!
