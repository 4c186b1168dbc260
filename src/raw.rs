use std::sync::atomic::{AtomicBool, Ordering};
use vstd::prelude::*;

verus! {

/// Provides mutual exclusion by spinning on an `AtomicBool`.
///
/// The flag is `true` exactly while some owner holds the lock.
#[derive(Debug)]
pub struct RawSpinlock {
    /// Whether the lock is held. Public so that an unlocked lock can be
    /// written as a constant (`AtomicBool::new(false)`); change it only
    /// through the methods below.
    pub locked: AtomicBool,
}

impl RawSpinlock {
    /// A lock in the unlocked state.
    pub fn new() -> (r: RawSpinlock) {
        RawSpinlock { locked: AtomicBool::new(false) }
    }

    /// One attempt to take the lock, without waiting.
    ///
    /// A single compare-and-swap of the flag from unlocked to locked, with
    /// acquire ordering on success and relaxed ordering on failure. Returns
    /// whether this call took the lock. The flag is shared, so this contract
    /// states nothing about it. [`crate::protocol::exchange`] models the same
    /// operation, but no proof connects this method to that model.
    pub fn try_lock(&self) -> (acquired: bool) {
        let report = self.locked.compare_exchange(false, true, Ordering::Acquire, Ordering::Relaxed);
        report.is_ok()
    }

    /// A relaxed read of the flag: whether the lock looked held.
    ///
    /// Orders nothing; a blocking acquire polls with it between exchanges so
    /// that waiting contexts do not contend on the exchange itself.
    pub fn is_locked(&self) -> (locked: bool) {
        self.locked.load(Ordering::Relaxed)
    }

    /// Releases the lock: stores unlocked with release ordering.
    /// `Event::Unlock` in [`crate::protocol`] models this operation, but no
    /// proof connects the two.
    ///
    /// Only the current owner may call this, once per acquisition.
    pub fn unlock(&self) {
        self.locked.store(false, Ordering::Release);
    }
}

} // verus!
