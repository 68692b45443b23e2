//! The mutual-exclusion primitive that guards the shared bus.
//!
//! [`BusMutex`] is the abstraction over synchronisation primitives: it wraps
//! a value and guarantees at most one holder of exclusive access to it at a
//! time. Because the execution model has a single logical thread plus
//! interrupt preemption — no scheduler to block on — acquisition never
//! waits: a reentrant attempt is detected and refused instead.
//!
//! An acquisition is a bracketed protocol rather than a single call with a
//! callback: `try_enter` opens the critical section, `take` checks the value
//! out for mutation, `put` returns it, and `exit` closes the section. The
//! runtime-checked borrow of the interior-mutability cell is folded into the
//! same state: the value's slot is empty exactly while it is checked out, so
//! "mutex held and slot occupied" is the one invariant that makes mutation
//! safe.

use vstd::prelude::*;

verus! {

/// Abstraction over synchronisation primitives guarding the shared bus.
///
/// `stored` is `Some(v)` while the wrapped value is at rest and `None` while
/// it is checked out; `held` says whether the critical section is open.
pub trait BusMutex<T>: Sized {
    /// The wrapped value, or `None` while it is checked out.
    spec fn stored(&self) -> Option<T>;

    /// Whether the critical section is currently open.
    spec fn held(&self) -> bool;

    /// Create a mutex wrapping the given value.
    fn create(v: T) -> (m: Self)
        ensures
            !m.held(),
            m.stored() == Some(v),
    ;

    /// Open the critical section. A reentrant attempt — the section is
    /// already open — fails, and leaves both the section and the wrapped
    /// value exactly as they were; it never proceeds as if safe.
    fn try_enter(&mut self) -> (entered: bool)
        ensures
            old(self).held() ==> !entered && final(self).held() && final(self).stored() == old(
                self,
            ).stored(),
            !old(self).held() ==> entered && final(self).held() && final(self).stored() == old(
                self,
            ).stored(),
    ;

    /// Check the wrapped value out for mutation. Only the holder of the open
    /// critical section may do so, and only while the value is at rest.
    fn take(&mut self) -> (v: T)
        requires
            old(self).held(),
            old(self).stored() is Some,
        ensures
            final(self).held(),
            final(self).stored() is None,
            v == old(self).stored().unwrap(),
    ;

    /// Return the checked-out value.
    fn put(&mut self, v: T)
        requires
            old(self).held(),
            old(self).stored() is None,
        ensures
            final(self).held(),
            final(self).stored() == Some(v),
    ;

    /// Close the critical section. The value must be back at rest.
    fn exit(&mut self)
        requires
            old(self).held(),
            old(self).stored() is Some,
        ensures
            !final(self).held(),
            final(self).stored() == old(self).stored(),
    ;

    /// Whether the mutex is at rest right now: the critical section is
    /// closed and the wrapped value is in its slot.
    fn at_rest(&self) -> (r: bool)
        ensures
            r == (!self.held() && self.stored() is Some),
    ;
}

/// A critical-section mutex for a single execution context.
///
/// On bare metal the critical section would be realised by masking
/// interrupts for its duration; on a host the same discipline is enforced by
/// the explicit `locked` flag, which doubles as the run-time reentrancy
/// check. The value's slot is empty exactly while the value is checked out.
pub struct CriticalSectionMutex<T> {
    locked: bool,
    slot: Option<T>,
}

impl<T> BusMutex<T> for CriticalSectionMutex<T> {
    closed spec fn stored(&self) -> Option<T> {
        self.slot
    }

    closed spec fn held(&self) -> bool {
        self.locked
    }

    fn create(v: T) -> (m: Self) {
        CriticalSectionMutex { locked: false, slot: Some(v) }
    }

    fn try_enter(&mut self) -> (entered: bool) {
        if self.locked {
            false
        } else {
            self.locked = true;
            true
        }
    }

    fn take(&mut self) -> (v: T) {
        let mut out: Option<T> = None;
        core::mem::swap(&mut self.slot, &mut out);
        out.unwrap()
    }

    fn put(&mut self, v: T) {
        self.slot = Some(v);
    }

    fn exit(&mut self) {
        self.locked = false;
    }

    fn at_rest(&self) -> (r: bool) {
        !self.locked && self.slot.is_some()
    }
}

} // verus!
