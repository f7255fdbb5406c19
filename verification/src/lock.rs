//! Mutual exclusion for one shared peripheral handle between task context
//! and interrupt context on a single core.
//!
//! The discipline is masking, not blocking: task context masks the
//! interrupt source before taking the lock and unmasks on release, so the
//! handler can never run mid-mutation; interrupt context needs no further
//! masking because the hardware delivers one handler invocation at a time.
//! Acquisition therefore never waits, and the well-formedness invariant —
//! the source is masked exactly while task context holds the lock — is
//! what the rest of the system leans on.

use vstd::prelude::*;

verus! {

/// Which execution context currently holds the lock.
#[derive(Clone, Copy, PartialEq, Eq, Structural, Debug)]
pub enum LockHolder {
    /// Nobody holds the lock.
    Released,
    /// The running task holds it; the interrupt source is masked.
    TaskContext,
    /// The interrupt handler holds it, within one handler invocation.
    InterruptContext,
}

/// Scoped, non-blocking guard around one shared resource of type `R`.
pub struct SharedResourceLock<R> {
    holder: LockHolder,
    masked: bool,
    resource: R,
}

impl<R> SharedResourceLock<R> {
    /// Who holds the lock.
    pub closed spec fn holder(&self) -> LockHolder {
        self.holder
    }

    /// Whether the associated interrupt source is currently masked.
    pub closed spec fn masked(&self) -> bool {
        self.masked
    }

    /// The guarded resource.
    pub closed spec fn res(&self) -> R {
        self.resource
    }

    /// Masking discipline: the interrupt source is masked exactly while
    /// task context holds the lock.
    pub open spec fn wf(&self) -> bool {
        self.masked() == (self.holder() is TaskContext)
    }

    /// A released lock around `resource`, interrupt source unmasked.
    pub fn new(resource: R) -> (l: SharedResourceLock<R>)
        ensures
            l.wf(),
            l.holder() is Released,
            !l.masked(),
            l.res() == resource,
    {
        SharedResourceLock { holder: LockHolder::Released, masked: false, resource }
    }

    /// Whether task context currently holds the lock.
    pub fn held_by_task(&self) -> (b: bool)
        ensures
            b == (self.holder() is TaskContext),
    {
        match self.holder {
            LockHolder::TaskContext => true,
            _ => false,
        }
    }

    /// Whether the lock is currently free.
    pub fn is_released(&self) -> (b: bool)
        ensures
            b == (self.holder() is Released),
    {
        match self.holder {
            LockHolder::Released => true,
            _ => false,
        }
    }

    /// Whether the interrupt source is masked.
    pub fn is_masked(&self) -> (b: bool)
        ensures
            b == self.masked(),
    {
        self.masked
    }

    /// Take the lock from task context: mask the interrupt source, then
    /// claim exclusivity. Never waits — under cooperative scheduling only
    /// one task runs, and a handler invocation completes before task code
    /// resumes, so a free lock is guaranteed by the caller's context.
    pub fn acquire_from_task(&mut self)
        requires
            old(self).wf(),
            old(self).holder() is Released,
        ensures
            final(self).wf(),
            final(self).holder() is TaskContext,
            final(self).masked(),
            final(self).res() == old(self).res(),
    {
        self.masked = true;
        self.holder = LockHolder::TaskContext;
    }

    /// Release from task context and unmask the interrupt source, making a
    /// deferred edge deliverable again.
    pub fn release_from_task(&mut self)
        requires
            old(self).wf(),
            old(self).holder() is TaskContext,
        ensures
            final(self).wf(),
            final(self).holder() is Released,
            !final(self).masked(),
            final(self).res() == old(self).res(),
    {
        self.holder = LockHolder::Released;
        self.masked = false;
    }

    /// Take the lock from interrupt context. The hardware delivers the
    /// handler only while the source is unmasked, and then the masking
    /// discipline guarantees the lock is free; no extra masking is needed
    /// within the one-shot handler.
    pub fn acquire_from_interrupt(&mut self)
        requires
            old(self).wf(),
            old(self).holder() is Released,
            !old(self).masked(),
        ensures
            final(self).wf(),
            final(self).holder() is InterruptContext,
            !final(self).masked(),
            final(self).res() == old(self).res(),
    {
        self.holder = LockHolder::InterruptContext;
    }

    /// Release from interrupt context, before the handler returns.
    pub fn release_from_interrupt(&mut self)
        requires
            old(self).wf(),
            old(self).holder() is InterruptContext,
        ensures
            final(self).wf(),
            final(self).holder() is Released,
            final(self).masked() == old(self).masked(),
            final(self).res() == old(self).res(),
    {
        self.holder = LockHolder::Released;
    }

    /// Observe the guarded resource. Only a context that holds the lock
    /// may look: this is the single gate through which the shared
    /// peripheral is read.
    pub fn resource(&self) -> (r: &R)
        requires
            !(self.holder() is Released),
        ensures
            *r == self.res(),
    {
        &self.resource
    }

    /// The hardware side of the handle: the electrical state a peripheral
    /// presents changes regardless of software, so storing a fresh
    /// snapshot needs no holder — software observation stays lock-gated.
    pub fn hw_store(&mut self, resource: R)
        ensures
            final(self).holder() == old(self).holder(),
            final(self).masked() == old(self).masked(),
            final(self).res() == resource,
    {
        self.resource = resource;
    }
}

} // verus!
