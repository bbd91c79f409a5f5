use vstd::prelude::*;
use std::sync::atomic::{AtomicBool, Ordering};

verus! {

/// A mutual-exclusion flag built on one atomic boolean.
///
/// `locked` is true exactly while some thread holds the lock. Acquiring publishes
/// with `Acquire`, releasing with `Release`, so that the writes of one holder are
/// seen by the next. There is no fairness and no re-entrancy: a holder that tries
/// again fails until it unlocks.
pub struct SpinLock {
    locked: AtomicBool,
}

impl SpinLock {
    /// A released lock.
    pub fn new() -> (r: Self) {
        SpinLock { locked: AtomicBool::new(false) }
    }

    /// One attempt to move the flag from released to held.
    /// Whether it succeeds depends on the other threads; a caller that needs the
    /// lock repeats the attempt, hinting the processor that it spins.
    pub fn try_lock(&self) -> (acquired: bool) {
        self.locked.compare_exchange(false, true, Ordering::Acquire, Ordering::Relaxed).is_ok()
    }

    /// Releases the lock, publishing the writes of the critical section.
    pub fn unlock(&self) {
        self.locked.store(false, Ordering::Release);
    }

    /// Whether some thread held the lock at the moment of the read.
    pub fn is_locked(&self) -> (held: bool) {
        self.locked.load(Ordering::Relaxed)
    }
}

} // verus!
