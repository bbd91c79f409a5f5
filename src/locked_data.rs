use vstd::prelude::*;
use vstd::rwlock::{RwLock, RwLockPredicate};

verus! {

/// The lock invariant of a [`LockedData`]: every value may be stored.
pub struct AnyValue;

impl<T> RwLockPredicate<T> for AnyValue {
    open spec fn inv(self, v: T) -> bool {
        true
    }
}

/// A value of type `T` that is only reached while an exclusive spin lock is held.
///
/// The lock is vstd's verified spin lock, used on its exclusive side only: it
/// is taken by a compare-and-swap on an atomic flag and given back by a store,
/// and the value lives in a cell that only the holder of the flag can open. So
/// the writes of one holder are seen by the next, and no two threads reach the
/// value at once.
pub struct LockedData<T> {
    lock: RwLock<T, AnyValue>,
}

impl<T> LockedData<T> {
    /// Wraps `data`; the lock starts released.
    pub fn new(data: T) -> (r: Self) {
        LockedData { lock: RwLock::new(data, Ghost(AnyValue)) }
    }

    /// Runs `operation` on the guarded value with the lock held, then releases the
    /// lock and returns what `operation` returned. No two calls on the same value
    /// run their operations at the same time. An `operation` that panics leaves
    /// the lock held.
    pub fn with_lock<F, R>(&self, actor_name: &str, operation: F) -> (r: R)
        where
            F: FnOnce(&str, &mut T) -> R,
        requires
            forall|v: &mut T| #[trigger] operation.requires((actor_name, v)),
        ensures
            exists|v: &mut T| #[trigger] operation.ensures((actor_name, v), r),
    {
        let (mut data, handle) = self.lock.acquire_write();
        let result = operation(actor_name, &mut data);
        handle.release_write(data);
        result
    }

    /// The guarded value, taken out for good. Dropping a `LockedData` without
    /// this leaves its value undropped.
    pub fn into_inner(self) -> (r: T) {
        self.lock.into_inner()
    }
}

} // verus!
