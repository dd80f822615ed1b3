//! Small traits for the values that options are collected into.

use std::borrow::Cow;
use std::cell::{Ref, RefMut};
use vstd::prelude::*;
use crate::error::{SwitchAlreadySetError, TooManyOptionsError};

verus! {

/// A flag that can be raised once.
pub trait Switch: Sized {
    /// Whether the flag is raised.
    spec fn raised(&self) -> bool;

    /// Raises the flag. A flag that is already raised stays as it is and the call fails.
    fn set(&mut self) -> (r: Result<(), SwitchAlreadySetError>)
        ensures
            final(self).raised(),
            r is Err <==> old(self).raised(),
            old(self).raised() ==> *final(self) == *old(self),
    ;

    /// Tells whether the flag is raised.
    fn is_set(&self) -> (b: bool)
        ensures
            b == self.raised(),
    ;
}

impl Switch for bool {
    open spec fn raised(&self) -> bool {
        *self
    }

    #[inline]
    fn set(&mut self) -> (r: Result<(), SwitchAlreadySetError>) {
        if *self {
            Err(SwitchAlreadySetError)
        } else {
            *self = true;
            Ok(())
        }
    }

    #[inline]
    fn is_set(&self) -> (b: bool) {
        *self
    }
}

/// A count of how often an option was given, with an upper limit.
pub trait Counter: Sized {
    /// How often the counter was incremented.
    spec fn count(&self) -> nat;

    /// The largest count the counter can hold.
    spec fn limit(&self) -> nat;

    /// Counts one more. A counter at its limit stays as it is and the call fails.
    fn inc(&mut self) -> (r: Result<(), TooManyOptionsError>)
        ensures
            r is Err <==> old(self).count() >= old(self).limit(),
            r is Err ==> *final(self) == *old(self),
            r is Ok ==> final(self).count() == old(self).count() + 1 && final(self).limit() == old(
                self,
            ).limit(),
    ;
}

impl Counter for u8 {
    open spec fn count(&self) -> nat {
        *self as nat
    }

    open spec fn limit(&self) -> nat {
        u8::MAX as nat
    }

    #[inline]
    fn inc(&mut self) -> (r: Result<(), TooManyOptionsError>) {
        match self.checked_add(1) {
            Some(n) => {
                *self = n;
                Ok(())
            },
            None => Err(TooManyOptionsError),
        }
    }
}

impl Counter for u16 {
    open spec fn count(&self) -> nat {
        *self as nat
    }

    open spec fn limit(&self) -> nat {
        u16::MAX as nat
    }

    #[inline]
    fn inc(&mut self) -> (r: Result<(), TooManyOptionsError>) {
        match self.checked_add(1) {
            Some(n) => {
                *self = n;
                Ok(())
            },
            None => Err(TooManyOptionsError),
        }
    }
}

impl Counter for u32 {
    open spec fn count(&self) -> nat {
        *self as nat
    }

    open spec fn limit(&self) -> nat {
        u32::MAX as nat
    }

    #[inline]
    fn inc(&mut self) -> (r: Result<(), TooManyOptionsError>) {
        match self.checked_add(1) {
            Some(n) => {
                *self = n;
                Ok(())
            },
            None => Err(TooManyOptionsError),
        }
    }
}

impl Counter for u64 {
    open spec fn count(&self) -> nat {
        *self as nat
    }

    open spec fn limit(&self) -> nat {
        u64::MAX as nat
    }

    #[inline]
    fn inc(&mut self) -> (r: Result<(), TooManyOptionsError>) {
        match self.checked_add(1) {
            Some(n) => {
                *self = n;
                Ok(())
            },
            None => Err(TooManyOptionsError),
        }
    }
}

impl Counter for usize {
    open spec fn count(&self) -> nat {
        *self as nat
    }

    open spec fn limit(&self) -> nat {
        usize::MAX as nat
    }

    #[inline]
    fn inc(&mut self) -> (r: Result<(), TooManyOptionsError>) {
        match self.checked_add(1) {
            Some(n) => {
                *self = n;
                Ok(())
            },
            None => Err(TooManyOptionsError),
        }
    }
}

/// A value that borrows, and can be copied into one that does not.
pub trait IntoOwned {
    /// The value that does not borrow.
    type Owned;

    /// Copies what is borrowed.
    fn into_owned(self) -> Self::Owned;
}

/// A value behind a shared borrow of a `RefCell`, as `std::cell::Ref` holds it.
#[verifier::external_type_specification]
#[verifier::external_body]
#[verifier::reject_recursive_types(T)]
pub struct ExRef<'b, T: ?Sized>(Ref<'b, T>);

/// A value behind a mutable borrow of a `RefCell`, as `std::cell::RefMut` holds it.
#[verifier::external_type_specification]
#[verifier::external_body]
#[verifier::reject_recursive_types(T)]
pub struct ExRefMut<'b, T: ?Sized + 'b>(RefMut<'b, T>);

/// Calls `ToOwned::to_owned`. Nothing is said of the result: what an owned value has of the
/// borrowed one is up to the type.
#[verifier::external_body]
fn to_owned<T: ToOwned>(borrowed: &T) -> T::Owned {
    borrowed.to_owned()
}

/// Calls `Cow::into_owned`. Nothing is said of the result.
#[verifier::external_body]
fn cow_into_owned<T: ToOwned>(cow: Cow<'_, T>) -> T::Owned {
    cow.into_owned()
}

/// Calls `Clone::clone` on the value behind a shared borrow of a `RefCell`. Nothing is said of
/// the result.
#[verifier::external_body]
fn clone_of_ref<T: Clone>(borrowed: Ref<'_, T>) -> T {
    T::clone(&borrowed)
}

/// Calls `Clone::clone` on the value behind a mutable borrow of a `RefCell`. Nothing is said of
/// the result.
#[verifier::external_body]
fn clone_of_ref_mut<T: Clone>(borrowed: RefMut<'_, T>) -> T {
    T::clone(&borrowed)
}

impl<T> IntoOwned for &T where T: ToOwned {
    type Owned = <T as ToOwned>::Owned;

    fn into_owned(self) -> Self::Owned {
        to_owned(self)
    }
}

impl<T> IntoOwned for Cow<'_, T> where T: ToOwned {
    type Owned = T::Owned;

    fn into_owned(self) -> <Self as IntoOwned>::Owned {
        cow_into_owned(self)
    }
}

impl<T> IntoOwned for Ref<'_, T> where T: Clone {
    type Owned = T;

    fn into_owned(self) -> Self::Owned {
        clone_of_ref(self)
    }
}

impl<T> IntoOwned for RefMut<'_, T> where T: Clone {
    type Owned = T;

    fn into_owned(self) -> Self::Owned {
        clone_of_ref_mut(self)
    }
}

} // verus!
