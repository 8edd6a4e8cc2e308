//! Serialising injections: one conversion (selection and typed injection)
//! at a time.
//!
//! When conversion threads overlap (a hotkey pressed in quick succession),
//! their injected events interleave, the text breaks and mode tracking goes
//! astray. A trigger that arrives while one is in progress is dropped, not
//! queued: toggling once per completed press is safer than a burst that runs
//! late.
use vstd::prelude::*;
use std::sync::atomic::{AtomicBool, Ordering};

verus! {

/// A flag that at most one conversion holds at a time.
pub struct InjectionLock(AtomicBool);

/// Held while a conversion runs; dropping it releases the lock, on every
/// path out of the conversion, early returns included.
pub struct InjectionGuard(&'static AtomicBool);

impl InjectionGuard {
    /// The flag that this guard releases.
    pub closed spec fn flag(&self) -> AtomicBool {
        *self.0
    }
}

impl InjectionLock {
    /// The lock's flag.
    pub closed spec fn flag(&self) -> AtomicBool {
        self.0
    }

    /// A lock that nobody holds.
    pub fn new() -> (r: Self)
    {
        InjectionLock(AtomicBool::new(false))
    }

    /// Tries to take the lock. `None` when another conversion holds it (the
    /// caller then simply returns); otherwise a guard on this very lock.
    pub fn try_acquire(&'static self) -> (r: Option<InjectionGuard>)
        ensures
            r matches Some(g) ==> g.flag() == self.flag(),
    {
        let was_held = self.0.swap(true, Ordering::SeqCst);
        self.guard_unless_held(was_held)
    }

    /// What taking the lock gives, once the flag has been raised: `None` when
    /// it was already up (another conversion holds the lock), otherwise a
    /// guard on this lock.
    pub fn guard_unless_held(&'static self, was_held: bool) -> (r: Option<InjectionGuard>)
        ensures
            was_held ==> r is None,
            !was_held ==> (r matches Some(g) && g.flag() == self.flag()),
    {
        if was_held {
            None
        } else {
            Some(InjectionGuard(&self.0))
        }
    }
}

/// Clears `flag` through `AtomicBool::store` with sequentially consistent
/// ordering. The std documentation says `store` panics only for the orderings
/// `Acquire` and `AcqRel`, so with `SeqCst` it returns normally; that is all
/// this item claims.
#[verifier::external_body]
fn release(flag: &AtomicBool)
    opens_invariants none
    no_unwind
{
    flag.store(false, Ordering::SeqCst);
}

impl Drop for InjectionGuard {
    fn drop(&mut self)
        opens_invariants none
        no_unwind
    {
        release(self.0);
    }
}

} // verus!
