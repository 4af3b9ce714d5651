use std::sync::{Arc, LockResult, Mutex, MutexGuard, PoisonError};
use vstd::prelude::*;

verus! {

/// std's `Mutex`, carried through opaquely.
#[verifier::external_type_specification]
#[verifier::external_body]
#[verifier::reject_recursive_types(T)]
pub struct ExMutex<T: ?Sized>(Mutex<T>);

/// std's `MutexGuard`, carried through opaquely.
#[verifier::external_type_specification]
#[verifier::external_body]
#[verifier::reject_recursive_types(T)]
pub struct ExMutexGuard<'a, T: ?Sized + 'a>(MutexGuard<'a, T>);

/// std's `PoisonError`, carried through opaquely.
#[verifier::external_type_specification]
#[verifier::external_body]
#[verifier::reject_recursive_types(T)]
pub struct ExPoisonError<T>(PoisonError<T>);

/// Relies on std's `Mutex::new`: wraps a value in a new, unlocked mutex.
pub assume_specification<T>[ Mutex::<T>::new ](t: T) -> Mutex<T>;

/// Relies on std's `Mutex::lock`: blocks until the lock is held and hands out
/// the guard, inside a `PoisonError` when a holder panicked. std leaves open
/// what happens when the calling thread already holds this lock (it may
/// deadlock or panic); Verus cannot state which thread holds a std mutex, so
/// keeping out of that case is left to the caller: no thread may call this
/// while it holds a guard of the same mutex.
pub assume_specification<T: ?Sized>[ Mutex::<T>::lock ](m: &Mutex<T>) -> LockResult<
    MutexGuard<'_, T>,
>;

/// Relies on std's `PoisonError::into_inner`: hands back the guard that a
/// poisoned lock still granted.
pub assume_specification<T>[ PoisonError::<T>::into_inner ](e: PoisonError<T>) -> T;

/// A device shared between workers: one driver instance behind one lock.
/// Clones refer to the same lock and the same driver. A thread holding a guard
/// must drop it before it locks the device again, through any handle: std does
/// not say what a second lock from the same thread does.
#[verifier::reject_recursive_types(T)]
pub struct I2Cell<T> {
    device_lock: Arc<Mutex<T>>,
}

impl<T> I2Cell<T> {
    /// Wraps a driver instance in a new shared handle.
    pub fn new(device: T) -> (r: I2Cell<T>) {
        I2Cell { device_lock: Arc::new(Mutex::new(device)) }
    }

    /// Waits for exclusive access to the device; the guard releases it when
    /// dropped. A lock poisoned by a failed holder comes back as `Err`, still
    /// carrying the guard.
    ///
    /// The caller must not hold a guard of this device (from this handle or
    /// any clone of it) on the same thread: a second lock from one thread may
    /// deadlock or panic, and nothing here rules that out.
    pub fn lock(&self) -> LockResult<MutexGuard<'_, T>> {
        self.device_lock.lock()
    }

    /// Waits for exclusive access to the device, taking the lock over from a
    /// holder that failed: the register state of a chip cannot be rolled back,
    /// so it is used as it stands.
    ///
    /// As for `lock`, the caller must not already hold a guard of this device
    /// on the same thread.
    pub fn lock_recovered(&self) -> MutexGuard<'_, T> {
        match self.lock() {
            Ok(guard) => guard,
            Err(poisoned) => poisoned.into_inner(),
        }
    }
}

impl<T> Clone for I2Cell<T> {
    /// Another handle on the same lock and the same driver; no device state is copied.
    fn clone(&self) -> (r: I2Cell<T>)
        ensures
            r == *self,
    {
        I2Cell { device_lock: Arc::clone(&self.device_lock) }
    }
}

} // verus!
