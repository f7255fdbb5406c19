//! Single-slot hand-off cell between interrupt context and task context.
//!
//! The interrupt handler `publish`es "an edge was observed at tick T"; a
//! burst of edges collapses into one event carrying an accumulated count.
//! A task `claim`s the event at most once: the claim empties the slot, and
//! nothing refills it but a later `publish`. An empty claim is the expected
//! "no event yet" case, not an error.

use vstd::prelude::*;

verus! {

/// Immutable snapshot of an interrupt burst: the counter value at the most
/// recent edge, and how many edges have accumulated since the last claim.
#[derive(Clone, Copy, PartialEq, Eq, Structural, Debug)]
pub struct InterruptEvent {
    /// Counter value at which the latest edge of the burst was observed.
    pub tick: u32,
    /// Number of edges folded into this event since the last claim
    /// (saturating at `u32::MAX`).
    pub count: u32,
}

/// One latched event, or nothing. The abstract state of an [`InterruptLatch`].
pub type LatchState = Option<InterruptEvent>;

/// What `publish` at tick `now` leaves in the slot: a fresh event, or the
/// unclaimed previous one overwritten with the new tick and a bumped count.
pub open spec fn spec_publish(s: LatchState, now: u32) -> LatchState {
    match s {
        None => Some(InterruptEvent { tick: now, count: 1 }),
        Some(e) => Some(
            InterruptEvent {
                tick: now,
                count: if e.count == u32::MAX {
                    u32::MAX
                } else {
                    (e.count + 1) as u32
                },
            },
        ),
    }
}

/// What `claim` returns: the latched event, if any.
pub open spec fn spec_claim_result(s: LatchState) -> Option<InterruptEvent> {
    s
}

/// What `claim` leaves behind: an empty slot.
pub open spec fn spec_claim_rest(s: LatchState) -> LatchState {
    None
}

/// Single-writer (interrupt) / single-reader (task) cell with claim-once
/// semantics.
pub struct InterruptLatch {
    slot: Option<InterruptEvent>,
}

impl InterruptLatch {
    /// Abstract contents of the latch.
    pub closed spec fn view(&self) -> LatchState {
        self.slot
    }

    /// An empty latch: no event published yet.
    pub fn new() -> (l: InterruptLatch)
        ensures
            l@ is None,
    {
        InterruptLatch { slot: None }
    }

    /// Record one more edge at tick `now`. Called from interrupt context
    /// only; overwrites an unclaimed event rather than queuing, folding the
    /// burst into an accumulated count (saturating).
    pub fn publish(&mut self, now: u32)
        ensures
            final(self)@ == spec_publish(old(self)@, now),
    {
        let count: u32 = match &self.slot {
            None => 1,
            Some(e) => if e.count == u32::MAX {
                u32::MAX
            } else {
                e.count + 1
            },
        };
        self.slot = Some(InterruptEvent { tick: now, count });
    }

    /// Take the latched event, leaving the slot empty. Called from task
    /// context; the interrupt source must be masked for the duration of the
    /// call, which the system layer guarantees by running claims inside the
    /// resource lock's critical section.
    pub fn claim(&mut self) -> (r: Option<InterruptEvent>)
        ensures
            r == spec_claim_result(old(self)@),
            final(self)@ == spec_claim_rest(old(self)@),
    {
        self.slot.take()
    }
}

/// Law: a claim hands an event out at most once per publish burst. Whatever
/// the latch held, after one claim the slot is empty, so a second claim
/// without an intervening publish returns nothing.
pub proof fn lemma_claim_at_most_once(s: LatchState)
    ensures
        spec_claim_result(spec_claim_rest(s)) is None,
{
}

/// Law: a publish is never lost. A claim that follows a publish finds an
/// event — stamped with the publishing tick, with at least one edge
/// counted.
pub proof fn lemma_publish_then_claim(s: LatchState, now: u32)
    ensures
        spec_claim_result(spec_publish(s, now)) matches Some(e) && e.tick == now && e.count >= 1,
{
}

} // verus!
