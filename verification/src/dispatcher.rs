//! The interrupt-vector entry point.
//!
//! The dispatcher owns the pending-status flag of one configured edge
//! condition and knows which task depends on it. When invoked it guards
//! against spurious invocation, clears the flag before handling (so a new
//! edge can pend again rather than re-trigger the same one), briefly takes
//! the resource lock from interrupt context, records the event in the
//! latch, and wakes the dependent task — never waiting on anything.

use vstd::prelude::*;
use crate::latch::InterruptLatch;
use crate::latch::spec_publish;
use crate::lock::SharedResourceLock;
use crate::scheduler::TaskScheduler;
use crate::scheduler::TaskState;
use crate::timer_queue::without_task;

verus! {

/// Interrupt entry point for one edge condition, bound to the task it
/// wakes.
pub struct EventDispatcher {
    status: bool,
    watched_task: usize,
}

impl EventDispatcher {
    /// Whether the edge condition is pending (latched by hardware, not yet
    /// handled).
    pub closed spec fn status(&self) -> bool {
        self.status
    }

    /// The task this interrupt source wakes.
    pub closed spec fn watched(&self) -> usize {
        self.watched_task
    }

    /// A dispatcher for the interrupt source that wakes `watched_task`,
    /// with no edge pending.
    pub fn new(watched_task: usize) -> (d: EventDispatcher)
        ensures
            !d.status(),
            d.watched() == watched_task,
    {
        EventDispatcher { status: false, watched_task }
    }

    /// Whether an edge is pending.
    pub fn pending(&self) -> (b: bool)
        ensures
            b == self.status(),
    {
        self.status
    }

    /// The hardware latches the configured edge condition: the pending
    /// flag rises. Delivery may still be deferred while the source is
    /// masked.
    pub fn raise(&mut self)
        ensures
            final(self).status(),
            final(self).watched() == old(self).watched(),
    {
        self.status = true;
    }

    /// Handle one delivered interrupt: the body of the interrupt vector.
    /// Returns immediately on a spurious invocation (flag clear). Otherwise
    /// clears the flag, publishes "edge at tick `now`" to the latch inside
    /// an interrupt-context critical section, and wakes the dependent task
    /// immediately, bypassing the timer queue.
    pub fn dispatch<R>(
        &mut self,
        now: u32,
        latch: &mut InterruptLatch,
        lock: &mut SharedResourceLock<R>,
        sched: &mut TaskScheduler,
    ) -> (fired: bool)
        requires
            old(lock).wf(),
            old(lock).holder() is Released,
            !old(lock).masked(),
            old(sched).wf(),
            old(self).watched() < old(sched).task_states().len(),
        ensures
            fired == old(self).status(),
            !final(self).status(),
            final(self).watched() == old(self).watched(),
            final(lock).wf(),
            final(lock).holder() is Released,
            !final(lock).masked(),
            final(lock).res() == old(lock).res(),
            final(sched).wf(),
            !fired ==> *final(latch) == *old(latch) && *final(sched) == *old(sched),
            fired ==> final(latch)@ == spec_publish(old(latch)@, now),
            fired && old(sched).task_states()[old(self).watched() as int] is Waiting ==> {
                &&& final(sched).task_states() == old(sched).task_states().update(
                    old(self).watched() as int,
                    TaskState::Ready,
                )
                &&& final(sched).ready_order() == old(sched).ready_order().push(
                    old(self).watched(),
                )
                &&& final(sched).wake_entries() == without_task(
                    old(sched).wake_entries(),
                    old(self).watched(),
                )
            },
            fired && !(old(sched).task_states()[old(self).watched() as int] is Waiting)
                ==> *final(sched) == *old(sched),
    {
        if !self.status {
            return false;
        }
        self.status = false;
        lock.acquire_from_interrupt();
        latch.publish(now);
        sched.wake(self.watched_task);
        lock.release_from_interrupt();
        true
    }
}

} // verus!
