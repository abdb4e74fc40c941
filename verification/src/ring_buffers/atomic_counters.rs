use vstd::prelude::*;

use std::sync::atomic::{AtomicUsize, Ordering};

verus! {

// The counters of a ring shared by two threads. What a load returns depends
// on what the other thread has stored, so nothing is known of it here.

/// Loads `counter` with `Relaxed` ordering.
pub fn load_relaxed(counter: &AtomicUsize) -> usize {
    counter.load(Ordering::Relaxed)
}

/// Loads `counter` with `Acquire` ordering: the slot writes that the other
/// thread made before its matching `Release` store are visible afterwards.
pub fn load_acquire(counter: &AtomicUsize) -> usize {
    counter.load(Ordering::Acquire)
}

/// Stores `value` into `counter` with `Release` ordering, publishing the slot
/// writes made before it.
pub fn store_release(counter: &AtomicUsize, value: usize) {
    counter.store(value, Ordering::Release)
}

} // verus!
