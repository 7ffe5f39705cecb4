//! The single-owner copy-on-write cell.
//!
//! An [`Lc`] wraps one reference-counted allocation holding one `T`.
//! Cloning the handle ([`Lc::lazy`]) is O(1) and merely aliases the
//! allocation; a deep copy is made only when a mutable view of a shared
//! allocation is requested.
//!
//! The model kept alongside each handle records the held value, the
//! identity of the allocation, and an exclusivity mark.  The mark is
//! conservative in one direction: when `exclusive()` holds, the
//! reference count is exactly 1 and this handle is the only one; when it
//! does not hold, the count may still be 1 (an aliasing handle may have
//! been dropped), and only a run-time check can find that out.  A
//! claim of exclusivity is made only where it is justified: on a
//! freshly made allocation, or when a count of 1 was observed through
//! an exclusive borrow of the sole handle; and any operation that hands
//! out a new alias first marks the source handle as shared.

use std::rc::Rc;
use vstd::pervasive::cloned;
use vstd::prelude::*;

verus! {

/// A reference-counted holder of one `T`, cloneable in O(1) by aliasing.
///
/// Mutating operations never touch an allocation that another handle can
/// still observe: they first rebind this handle to a fresh copy.
pub struct Lc<T> {
    rc: Rc<T>,
    id: Ghost<int>,
    shared: Ghost<bool>,
}

impl<T> Lc<T> {
    /// The value this handle gives access to.
    pub closed spec fn value(&self) -> T {
        *self.rc
    }

    /// Identity of the underlying allocation: two handles with the same
    /// identity alias the same memory.
    pub closed spec fn id(&self) -> int {
        self.id@
    }

    /// True when this handle is known to be the sole owner of its
    /// allocation.  The reference count is then exactly 1.
    pub closed spec fn exclusive(&self) -> bool {
        !self.shared@
    }

    /// Relies on `Rc::new`: a fresh allocation holds the given value and
    /// has reference count 1.
    #[verifier::external_body]
    pub fn new(value: T) -> (r: Self)
        ensures
            r.value() == value,
            r.exclusive(),
    {
        Lc { rc: Rc::new(value), id: Ghost(0int), shared: Ghost(false) }
    }

    /// Relies on `Rc::new`: a fresh allocation has count 1, and its
    /// address differs from that of the still-live allocation of `self`.
    #[verifier::external_body]
    pub(crate) fn renew(&self, value: T) -> (r: Self)
        ensures
            r.value() == value,
            r.exclusive(),
            r.id() != self.id(),
    {
        Lc { rc: Rc::new(value), id: Ghost(0int), shared: Ghost(false) }
    }

    /// Relies on `Rc::clone`: aliasing increments the count and returns
    /// a handle to the same allocation with the same content.
    ///
    /// The receiver must already be marked shared, so that no handle is
    /// left claiming sole ownership of a now-aliased allocation.
    #[verifier::external_body]
    pub(crate) fn alias(&self) -> (r: Self)
        requires
            !self.exclusive(),
        ensures
            r.value() == self.value(),
            r.id() == self.id(),
            !r.exclusive(),
    {
        Lc { rc: Rc::clone(&self.rc), id: self.id, shared: self.shared }
    }

    /// Relies on `<Rc as Deref>::deref`: reading never touches the
    /// count and returns a reference to the held value.
    #[verifier::external_body]
    pub fn read(&self) -> (r: &T)
        ensures
            *r == self.value(),
    {
        &self.rc
    }

    /// Relies on `Rc::strong_count`: the count is 1 exactly when this
    /// handle is the only one aliasing the allocation.  A count of 1
    /// observed through an exclusive borrow of the sole handle cannot be
    /// raised concurrently, so a true answer is recorded in the model.
    #[verifier::external_body]
    pub fn is_mutable(&mut self) -> (r: bool)
        ensures
            final(self).value() == old(self).value(),
            final(self).id() == old(self).id(),
            old(self).exclusive() ==> r,
            final(self).exclusive() == (old(self).exclusive() || r),
    {
        Rc::strong_count(&self.rc) == 1
    }

    /// Relies on `Rc::into_inner`: when the count is 1, the value moves
    /// out without being copied.
    #[verifier::external_body]
    pub(crate) fn take_inner(self) -> (r: T)
        requires
            self.exclusive(),
        ensures
            r == self.value(),
    {
        Rc::into_inner(self.rc).unwrap()
    }

    /// Relies on `Rc::get_mut`: on a strong count of 1 it yields a
    /// mutable reference to the held value, in place.  Nothing in this
    /// library ever creates a weak reference, so a sole strong owner is
    /// unencumbered.  The handle keeps its
    /// allocation, remains sole owner, and afterwards holds whatever was
    /// written through the reference.
    #[verifier::external_body]
    pub(crate) fn borrow_exclusive(&mut self) -> (r: &mut T)
        requires
            old(self).exclusive(),
        ensures
            *r == old(self).value(),
            final(self).value() == *final(r),
            final(self).id() == old(self).id(),
            final(self).exclusive(),
    {
        Rc::get_mut(&mut self.rc).unwrap()
    }

    /// Relies on `Rc::ptr_eq`: true exactly when both handles alias the
    /// same allocation.
    #[verifier::external_body]
    pub fn ptr_eq(&self, other: &Self) -> (r: bool)
        ensures
            r == (self.id() == other.id()),
    {
        Rc::ptr_eq(&self.rc, &other.rc)
    }

    /// Give up the claim to sole ownership.  Purely a weakening of the
    /// model: the allocation and count are untouched.
    pub(crate) fn seal(&mut self)
        ensures
            final(self).value() == old(self).value(),
            final(self).id() == old(self).id(),
            !final(self).exclusive(),
    {
        self.shared = Ghost(true);
    }

    /// An O(1) clone of the handle: the result aliases this handle's
    /// allocation, and both handles are marked shared.
    pub fn lazy(&mut self) -> (r: Self)
        ensures
            r.value() == old(self).value(),
            r.id() == old(self).id(),
            !r.exclusive(),
            final(self).value() == old(self).value(),
            final(self).id() == old(self).id(),
            !final(self).exclusive(),
    {
        self.seal();
        self.alias()
    }

    /// Rebinds this handle to a fresh allocation holding `value`.  A
    /// handle that still aliased the old allocation is unaffected.
    pub fn write(&mut self, value: T)
        ensures
            final(self).value() == value,
            final(self).id() != old(self).id(),
            final(self).exclusive(),
    {
        *self = self.renew(value);
    }

    /// Moves the held value out without copying.  Only a handle that is
    /// the sole owner of its allocation may be destroyed; a caller must
    /// establish exclusivity first, for instance through [`Lc::read_mut`]
    /// or by checking [`Lc::is_mutable`].
    pub fn destroy(self) -> (r: T)
        requires
            self.exclusive(),
        ensures
            r == self.value(),
    {
        self.take_inner()
    }
}

impl<T: Clone> Lc<T> {
    /// Relies on `T::clone` (reached through `Rc::as_ref`): the result
    /// satisfies the clone contract of `T` on the held value.
    #[verifier::external_body]
    pub fn take(&self) -> (r: T)
        ensures
            cloned::<T>(self.value(), r),
    {
        self.rc.as_ref().clone()
    }

    /// Relies on `Rc::make_mut`: it yields a mutable reference to a
    /// sole-owned value, cloning the held value into a fresh allocation
    /// first when the old one is still aliased.  On an already exclusive
    /// handle it works in place — nothing in this library ever creates
    /// a weak reference that would make it move the value.  The model afterwards makes no
    /// exclusivity claim, so the handle can be stored back among
    /// possibly aliased ones.
    #[verifier::external_body]
    pub(crate) fn cow_borrow(&mut self) -> (r: &mut T)
        ensures
            cloned::<T>(old(self).value(), *r),
            old(self).exclusive() ==> *r == old(self).value() && final(self).id() == old(
                self,
            ).id(),
            final(self).value() == *final(r),
            !final(self).exclusive(),
    {
        Rc::make_mut(&mut self.rc)
    }

    /// An eager clone: a deep copy of the held value in a fresh
    /// allocation, solely owned by the returned handle.
    pub fn eager(&self) -> (r: Self)
        ensures
            cloned::<T>(self.value(), r.value()),
            r.id() != self.id(),
            r.exclusive(),
    {
        let value = self.take();
        self.renew(value)
    }

    /// Makes this handle the sole owner of its value — copying the value
    /// into a fresh allocation if it was shared, and doing nothing if it
    /// was already exclusive — then returns a mutable reference into the
    /// now-exclusive allocation.
    pub fn read_mut(&mut self) -> (r: &mut T)
        ensures
            cloned::<T>(old(self).value(), *r),
            old(self).exclusive() ==> *r == old(self).value() && final(self).id() == old(
                self,
            ).id(),
            final(self).value() == *final(r),
            final(self).exclusive(),
    {
        if !self.is_mutable() {
            let fresh = self.eager();
            *self = fresh;
        }
        self.borrow_exclusive()
    }

    /// Returns the held value: without copying when this handle turns
    /// out to be the sole owner, by deep copy otherwise.
    pub fn unwrap(self) -> (r: T)
        ensures
            cloned::<T>(self.value(), r),
            crate::lazy::clone_faithful::<T>() ==> r == self.value(),
    {
        let mut this = self;
        if this.is_mutable() {
            this.take_inner()
        } else {
            this.take()
        }
    }
}

impl<T: Clone> crate::lazy::LazyClone for Lc<T> {
    open spec fn inv(&self) -> bool {
        true
    }

    fn lazy(&mut self) -> Self {
        Lc::lazy(self)
    }

    fn eager(&self) -> Self {
        Lc::eager(self)
    }

    fn is_mutable(&mut self) -> bool {
        Lc::is_mutable(self)
    }
}

} // verus!
