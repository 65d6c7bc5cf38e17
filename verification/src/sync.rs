//! The reader/writer lock of the standard library, as far as the cache uses it.
//!
//! Nothing is known of what a lock holds beyond the type of the value: a
//! guard hands out whatever some thread stored last.

use std::sync::LockResult;
use std::sync::PoisonError;
use std::sync::RwLock;
use std::sync::RwLockReadGuard;
use std::sync::RwLockWriteGuard;
use vstd::prelude::*;

verus! {

/// `std::sync::RwLock`, opaque.
#[verifier::external_type_specification]
#[verifier::external_body]
#[verifier::reject_recursive_types(T)]
pub struct ExRwLock<T: ?Sized>(RwLock<T>);

/// `std::sync::RwLockReadGuard`, opaque.
#[verifier::external_type_specification]
#[verifier::external_body]
#[verifier::reject_recursive_types(T)]
pub struct ExRwLockReadGuard<'a, T: ?Sized>(RwLockReadGuard<'a, T>);

/// `std::sync::RwLockWriteGuard`, opaque.
#[verifier::external_type_specification]
#[verifier::external_body]
#[verifier::reject_recursive_types(T)]
pub struct ExRwLockWriteGuard<'a, T: ?Sized + 'a>(RwLockWriteGuard<'a, T>);

/// `std::sync::PoisonError`, opaque.
#[verifier::external_type_specification]
#[verifier::external_body]
#[verifier::reject_recursive_types(T)]
pub struct ExPoisonError<T>(PoisonError<T>);

/// `RwLock::new` returns a lock; nothing is claimed of it.
pub assume_specification<T>[ RwLock::<T>::new ](t: T) -> RwLock<T>;

/// `RwLock::read` returns a shared guard, or an error once a writer has
/// panicked. Nothing is claimed of which. The standard library lets the call
/// panic or block where the calling thread already holds the lock: callers
/// in this crate ask for a guard only while they hold none.
pub assume_specification<'a, T: ?Sized>[ RwLock::<T>::read ](lock: &'a RwLock<T>) -> LockResult<
    RwLockReadGuard<'a, T>,
>;

/// `RwLock::write` returns an exclusive guard, or an error once a writer has
/// panicked. Nothing is claimed of which. The standard library lets the call
/// panic or block where the calling thread already holds the lock: callers
/// in this crate ask for a guard only while they hold none.
pub assume_specification<'a, T: ?Sized>[ RwLock::<T>::write ](lock: &'a RwLock<T>) -> LockResult<
    RwLockWriteGuard<'a, T>,
>;

/// `Deref::deref` of a read guard: the value that the lock holds.
#[verifier::external_body]
pub(crate) fn held<'a, 'b, T>(guard: &'a RwLockReadGuard<'b, T>) -> &'a T {
    std::ops::Deref::deref(guard)
}

/// `DerefMut::deref_mut` of a write guard: the value that the lock holds,
/// open to change until the guard goes.
#[verifier::external_body]
pub(crate) fn held_mut<'a, 'b, T>(guard: &'a mut RwLockWriteGuard<'b, T>) -> &'a mut T {
    std::ops::DerefMut::deref_mut(guard)
}

} // verus!
