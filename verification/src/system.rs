//! The assembled substrate, and the exclusion argument for its one shared
//! resource.
//!
//! A [`System`] owns the scheduler, the latch, the dispatcher of one edge
//! interrupt, and the lock around the shared peripheral handle. Its methods
//! are the narrow surface the environment drives: raise an edge, deliver a
//! timer tick, resume/suspend tasks, and enter or leave the task-side
//! critical section.
//!
//! The masking discipline is captured abstractly by [`SysState`] and
//! [`sys_step`]: an edge that arrives while the source is masked only pends
//! the status flag; it is delivered once the task context releases. The
//! lemmas at the bottom prove, for every state reachable by any sequence of
//! edges, ticks, acquisitions and releases, that an interrupt handler only
//! ever begins with the lock free — the shared resource is observed by at
//! most one context at any instant.

use vstd::prelude::*;
use crate::dispatcher::EventDispatcher;
use crate::latch::InterruptEvent;
use crate::latch::InterruptLatch;
use crate::latch::spec_claim_rest;
use crate::latch::spec_claim_result;
use crate::latch::spec_publish;
use crate::lock::LockHolder;
use crate::lock::SharedResourceLock;
use crate::scheduler::TaskScheduler;
use crate::scheduler::TaskState;
use crate::timer_queue::due_tasks;
use crate::timer_queue::kept_entries;
use crate::timer_queue::without_task;
use crate::ticks::spec_wrap_add;

verus! {

/// The shared peripheral handle: one digital input pin, modeled by the
/// level it presents (`level_low` is true while the line is pulled low,
/// e.g. a pressed button).
#[derive(Clone, Copy, PartialEq, Eq, Structural, Debug)]
pub struct SharedResource {
    /// Whether the input line is currently low.
    pub level_low: bool,
}

/// Abstract synchronization state of a [`System`]: everything the
/// exclusion argument depends on.
#[derive(Clone, Copy, PartialEq, Eq, Structural, Debug)]
pub struct SysState {
    /// Who holds the resource lock.
    pub holder: LockHolder,
    /// Whether the edge interrupt source is masked.
    pub masked: bool,
    /// Whether an edge is pending, latched by hardware but not yet handled.
    pub status: bool,
}

/// The events the environment can feed a system, as far as
/// synchronization is concerned.
#[derive(Clone, Copy, PartialEq, Eq, Structural, Debug)]
pub enum SysEvent {
    /// The configured edge condition occurs on the input line.
    Edge,
    /// A timer interrupt: scheduler work only, no resource access.
    TimerTick,
    /// The running task enters its critical section.
    TaskAcquire,
    /// The running task leaves its critical section.
    TaskRelease,
}

/// Invariant of every reachable synchronization state: the source is
/// masked exactly while task context holds the lock, and interrupt context
/// never holds it between steps (a handler runs to completion within one).
pub open spec fn sys_inv(s: SysState) -> bool {
    &&& s.masked == (s.holder is TaskContext)
    &&& !(s.holder is InterruptContext)
}

/// Whether event `e` makes the hardware deliver the edge handler in state
/// `s`: an edge is delivered at once while unmasked, and a pended edge is
/// delivered the moment the task context unmasks by releasing.
pub open spec fn delivers(s: SysState, e: SysEvent) -> bool {
    match e {
        SysEvent::Edge => !s.masked,
        SysEvent::TaskRelease => s.holder is TaskContext && s.status,
        _ => false,
    }
}

/// The lock state the delivered handler finds at its entry: an immediate
/// delivery starts from the current state; a delivery pended until release
/// starts only after the task context has released and unmasked.
pub open spec fn handler_entry(s: SysState, e: SysEvent) -> SysState {
    match e {
        SysEvent::TaskRelease => SysState {
            holder: LockHolder::Released,
            masked: false,
            status: s.status,
        },
        _ => s,
    }
}

/// One synchronization step. A handler that is delivered runs to
/// completion within the step: it takes and returns the lock and consumes
/// the status flag. Events that are not enabled (acquiring a held lock,
/// releasing a free one) leave the state unchanged: under cooperative
/// scheduling the single running task never issues them.
pub open spec fn sys_step(s: SysState, e: SysEvent) -> SysState {
    match e {
        SysEvent::Edge => if !s.masked {
            SysState { holder: s.holder, masked: s.masked, status: false }
        } else {
            SysState { holder: s.holder, masked: s.masked, status: true }
        },
        SysEvent::TimerTick => s,
        SysEvent::TaskAcquire => if s.holder is Released && !s.masked {
            SysState { holder: LockHolder::TaskContext, masked: true, status: s.status }
        } else {
            s
        },
        SysEvent::TaskRelease => if s.holder is TaskContext {
            SysState { holder: LockHolder::Released, masked: false, status: false }
        } else {
            s
        },
    }
}

/// The state after feeding `events` to `s`, first event first.
pub open spec fn sys_run(s: SysState, events: Seq<SysEvent>) -> SysState
    decreases events.len(),
{
    if events.len() == 0 {
        s
    } else {
        sys_step(sys_run(s, events.drop_last()), events.last())
    }
}

/// Law: one step never breaks exclusion. From any state satisfying the
/// invariant, the invariant still holds after any event; an edge that
/// arrives while task context holds the lock is deferred, not delivered;
/// and whenever a delivery does happen, the handler begins with the lock
/// free — so the shared resource is observed by at most one context at any
/// instant.
pub proof fn lemma_exclusion_step(s: SysState, e: SysEvent)
    requires
        sys_inv(s),
    ensures
        sys_inv(sys_step(s, e)),
        e is Edge && s.holder is TaskContext ==> !delivers(s, e) && sys_step(s, e).status,
        delivers(s, e) ==> handler_entry(s, e).holder is Released,
{
}

/// Law: exclusion holds along every trace. Whatever sequence of simulated
/// edges, timer ticks, acquisitions and releases is fed to a well-formed
/// initial state, every intermediate state satisfies the invariant, and
/// every delivery along the way begins with the lock free.
pub proof fn lemma_exclusion_trace(s0: SysState, events: Seq<SysEvent>)
    requires
        sys_inv(s0),
    ensures
        sys_inv(sys_run(s0, events)),
        forall|k: int|
            0 <= k < events.len() && delivers(
                sys_run(s0, events.subrange(0, k)),
                events[k],
            ) ==> handler_entry(sys_run(s0, events.subrange(0, k)), events[k]).holder is Released,
    decreases events.len(),
{
    if events.len() > 0 {
        let prefix = events.drop_last();
        lemma_exclusion_trace(s0, prefix);
        assert(events.subrange(0, prefix.len() as int) =~= prefix);
        lemma_exclusion_step(sys_run(s0, prefix), events.last());
        assert forall|k: int|
            0 <= k < events.len() && delivers(
                sys_run(s0, events.subrange(0, k)),
                events[k],
            ) implies handler_entry(
            sys_run(s0, events.subrange(0, k)),
            events[k],
        ).holder is Released by {
            if k < events.len() - 1 {
                assert(events.subrange(0, k) =~= prefix.subrange(0, k));
                assert(events[k] == prefix[k]);
            }
        }
    }
}

/// The assembled substrate: scheduler, latch, dispatcher of one edge
/// interrupt, and the lock around the shared handle.
pub struct System {
    scheduler: TaskScheduler,
    dispatcher: EventDispatcher,
    latch: InterruptLatch,
    lock: SharedResourceLock<SharedResource>,
}

impl System {
    /// The scheduler component.
    pub closed spec fn sched(&self) -> TaskScheduler {
        self.scheduler
    }

    /// The latch contents.
    pub closed spec fn latched(&self) -> Option<InterruptEvent> {
        self.latch@
    }

    /// The shared handle as currently presented by the hardware.
    pub closed spec fn resource_state(&self) -> SharedResource {
        self.lock.res()
    }

    /// The abstract synchronization state, the subject of [`sys_step`].
    pub closed spec fn sync(&self) -> SysState {
        SysState {
            holder: self.lock.holder(),
            masked: self.lock.masked(),
            status: self.dispatcher.status(),
        }
    }

    /// Well-formedness: scheduler and lock invariants, the synchronization
    /// invariant, and a dispatcher bound to an existing task.
    pub open spec fn wf(&self) -> bool {
        &&& self.sched().wf()
        &&& self.lock_wf()
        &&& sys_inv(self.sync())
        &&& self.watched() < self.sched().task_states().len()
    }

    /// The lock's own masking discipline.
    pub closed spec fn lock_wf(&self) -> bool {
        self.lock.wf()
    }

    /// The task the edge interrupt wakes.
    pub closed spec fn watched(&self) -> usize {
        self.dispatcher.watched()
    }

    /// A fresh system at boot: `task_count` tasks spawned ready in identity
    /// order, no event latched, no edge pending, lock free and unmasked,
    /// the input line high.
    pub fn new(task_count: usize, watched_task: usize) -> (s: System)
        requires
            watched_task < task_count,
        ensures
            s.wf(),
            s.sched().idle(),
            s.sched().task_states() == Seq::new(task_count as nat, |i: int| TaskState::Ready),
            s.sched().ready_order() == Seq::new(task_count as nat, |i: int| i as usize),
            s.latched() is None,
            s.sync() == (SysState {
                holder: LockHolder::Released,
                masked: false,
                status: false,
            }),
            s.watched() == watched_task,
            !s.resource_state().level_low,
    {
        System {
            scheduler: TaskScheduler::new(task_count),
            dispatcher: EventDispatcher::new(watched_task),
            latch: InterruptLatch::new(),
            lock: SharedResourceLock::new(SharedResource { level_low: false }),
        }
    }

    /// How many tasks the system owns.
    pub fn task_count(&self) -> (n: usize)
        ensures
            n == self.sched().task_states().len(),
    {
        self.scheduler.task_count()
    }

    /// The current state of task `t`.
    pub fn state_of(&self, t: usize) -> (s: TaskState)
        requires
            t < self.sched().task_states().len(),
        ensures
            s == self.sched().task_states()[t as int],
    {
        self.scheduler.state_of(t)
    }

    /// Whether the resource lock is currently free.
    pub fn lock_released(&self) -> (b: bool)
        ensures
            b == (self.sync().holder is Released),
    {
        self.lock.is_released()
    }

    /// Whether task context currently holds the resource lock.
    pub fn task_holds(&self) -> (b: bool)
        ensures
            b == (self.sync().holder is TaskContext),
    {
        self.lock.held_by_task()
    }

    /// Whether an edge is pending, latched but not yet delivered.
    pub fn edge_pending(&self) -> (b: bool)
        ensures
            b == self.sync().status,
    {
        self.dispatcher.pending()
    }

    /// Pick the next task to resume: FIFO among the ready tasks.
    pub fn next_task(&mut self) -> (r: Option<usize>)
        requires
            old(self).wf(),
            old(self).sched().idle(),
        ensures
            final(self).wf(),
            final(self).sync() == old(self).sync(),
            final(self).latched() == old(self).latched(),
            final(self).watched() == old(self).watched(),
            final(self).resource_state() == old(self).resource_state(),
            old(self).sched().ready_order().len() == 0 ==> r is None && final(self).sched()
                == old(self).sched(),
            old(self).sched().ready_order().len() > 0 ==> {
                &&& r == Some(old(self).sched().ready_order()[0])
                &&& final(self).sched().ready_order() == old(
                    self,
                ).sched().ready_order().drop_first()
                &&& final(self).sched().task_states() == old(self).sched().task_states().update(
                    old(self).sched().ready_order()[0] as int,
                    TaskState::Running,
                )
                &&& final(self).sched().wake_entries() == old(self).sched().wake_entries()
            },
    {
        self.scheduler.next_task()
    }

    /// Suspend the running task `t` for `delta` ticks from counter value
    /// `now`. The task must have released the resource lock first: holding
    /// it across a suspension point would starve the interrupt handler of
    /// exclusive access indefinitely.
    pub fn sleep(&mut self, t: usize, now: u32, delta: u32)
        requires
            old(self).wf(),
            t < old(self).sched().task_states().len(),
            old(self).sched().task_states()[t as int] is Running,
            old(self).sync().holder is Released,
        ensures
            final(self).wf(),
            final(self).sync() == old(self).sync(),
            final(self).latched() == old(self).latched(),
            final(self).watched() == old(self).watched(),
            final(self).resource_state() == old(self).resource_state(),
            final(self).sched().idle(),
            final(self).sched().task_states() == old(self).sched().task_states().update(
                t as int,
                TaskState::Waiting { deadline: spec_wrap_add(now, delta) },
            ),
            final(self).sched().ready_order() == old(self).sched().ready_order(),
    {
        self.scheduler.sleep(t, now, delta);
    }

    /// Retire the running task `t`, which must have released the resource
    /// lock: a retired holder could never unmask the interrupt source
    /// again.
    pub fn complete(&mut self, t: usize)
        requires
            old(self).wf(),
            t < old(self).sched().task_states().len(),
            old(self).sched().task_states()[t as int] is Running,
            old(self).sync().holder is Released,
        ensures
            final(self).wf(),
            final(self).sync() == old(self).sync(),
            final(self).latched() == old(self).latched(),
            final(self).watched() == old(self).watched(),
            final(self).resource_state() == old(self).resource_state(),
            final(self).sched().idle(),
            final(self).sched().task_states() == old(self).sched().task_states().update(
                t as int,
                TaskState::Done,
            ),
            final(self).sched().ready_order() == old(self).sched().ready_order(),
    {
        self.scheduler.complete(t);
    }

    /// Deliver one timer tick at counter value `now`: wakes every task
    /// whose deadline has been reached, FIFO by registration. The abstract
    /// synchronization state takes a [`SysEvent::TimerTick`] step.
    pub fn on_timer(&mut self, now: u32) -> (woken: Vec<usize>)
        requires
            old(self).wf(),
        ensures
            final(self).wf(),
            final(self).sync() == sys_step(old(self).sync(), SysEvent::TimerTick),
            final(self).latched() == old(self).latched(),
            final(self).watched() == old(self).watched(),
            final(self).resource_state() == old(self).resource_state(),
            woken@ == due_tasks(old(self).sched().wake_entries(), now),
            final(self).sched().wake_entries() == kept_entries(
                old(self).sched().wake_entries(),
                now,
            ),
            final(self).sched().ready_order() == old(self).sched().ready_order() + woken@,
            final(self).sched().task_states().len() == old(self).sched().task_states().len(),
            forall|i: usize|
                i < old(self).sched().task_states().len()
                    ==> #[trigger] final(self).sched().task_states()[i as int] == if woken@.contains(
                    i,
                ) {
                    TaskState::Ready
                } else {
                    old(self).sched().task_states()[i as int]
                },
    {
        self.scheduler.on_tick(now)
    }

    /// The configured edge condition occurs at counter value `now`: the
    /// input line goes low and the hardware pends the interrupt. If the
    /// source is unmasked the handler is delivered at once — it publishes
    /// the event and wakes the watched task; while task context holds the
    /// lock the source is masked and the edge stays pended. Returns whether
    /// the handler was delivered. The abstract synchronization state takes
    /// a [`SysEvent::Edge`] step.
    pub fn signal_edge(&mut self, now: u32) -> (delivered: bool)
        requires
            old(self).wf(),
        ensures
            final(self).wf(),
            final(self).sync() == sys_step(old(self).sync(), SysEvent::Edge),
            final(self).watched() == old(self).watched(),
            delivered == delivers(old(self).sync(), SysEvent::Edge),
            final(self).resource_state().level_low,
            !delivered ==> final(self).latched() == old(self).latched() && final(self).sched()
                == old(self).sched(),
            delivered ==> final(self).latched() == spec_publish(old(self).latched(), now),
            delivered && old(self).sched().task_states()[old(self).watched() as int] is Waiting
                ==> {
                &&& final(self).sched().task_states() == old(self).sched().task_states().update(
                    old(self).watched() as int,
                    TaskState::Ready,
                )
                &&& final(self).sched().ready_order() == old(self).sched().ready_order().push(
                    old(self).watched(),
                )
                &&& final(self).sched().wake_entries() == without_task(
                    old(self).sched().wake_entries(),
                    old(self).watched(),
                )
            },
            delivered && !(old(self).sched().task_states()[old(self).watched() as int] is Waiting)
                ==> final(self).sched() == old(self).sched(),
    {
        self.lock.hw_store(SharedResource { level_low: true });
        self.dispatcher.raise();
        if !self.lock.is_masked() {
            self.dispatcher.dispatch(now, &mut self.latch, &mut self.lock, &mut self.scheduler);
            true
        } else {
            false
        }
    }

    /// The environment presents a new electrical level on the input line.
    /// This is the wire changing, not a software observation, so it needs
    /// no lock; reading the level stays lock-gated.
    pub fn sync_level(&mut self, level_low: bool)
        ensures
            final(self).wf() == old(self).wf(),
            final(self).sync() == old(self).sync(),
            final(self).latched() == old(self).latched(),
            final(self).watched() == old(self).watched(),
            final(self).sched() == old(self).sched(),
            final(self).resource_state() == (SharedResource { level_low }),
    {
        self.lock.hw_store(SharedResource { level_low });
    }

    /// Enter the task-side critical section: mask the interrupt source and
    /// take the lock. The abstract synchronization state takes a
    /// [`SysEvent::TaskAcquire`] step.
    pub fn task_acquire(&mut self)
        requires
            old(self).wf(),
            old(self).sync().holder is Released,
        ensures
            final(self).wf(),
            final(self).sync() == sys_step(old(self).sync(), SysEvent::TaskAcquire),
            final(self).sync().holder is TaskContext,
            final(self).latched() == old(self).latched(),
            final(self).watched() == old(self).watched(),
            final(self).sched() == old(self).sched(),
            final(self).resource_state() == old(self).resource_state(),
    {
        self.lock.acquire_from_task();
    }

    /// Observe the shared handle from the task-side critical section.
    pub fn poll_resource(&self) -> (level_low: bool)
        requires
            self.sync().holder is TaskContext,
        ensures
            level_low == self.resource_state().level_low,
    {
        self.lock.resource().level_low
    }

    /// Claim the latched event, if any, from the task-side critical
    /// section; the mask held by the lock makes the take atomic with
    /// respect to the publisher.
    pub fn claim_event(&mut self) -> (r: Option<InterruptEvent>)
        requires
            old(self).wf(),
            old(self).sync().holder is TaskContext,
        ensures
            final(self).wf(),
            final(self).sync() == old(self).sync(),
            final(self).watched() == old(self).watched(),
            final(self).sched() == old(self).sched(),
            final(self).resource_state() == old(self).resource_state(),
            r == spec_claim_result(old(self).latched()),
            final(self).latched() == spec_claim_rest(old(self).latched()),
    {
        self.latch.claim()
    }

    /// One whole task-side critical section: acquire the lock, observe the
    /// line level, claim any latched event, and release — with the release
    /// guaranteed on the single exit path, so the handler can never be
    /// starved of the lock. An edge that pends during the section is
    /// delivered at the release, reported in `deferred`.
    pub fn observe(&mut self, now: u32) -> (r: (bool, Option<InterruptEvent>, bool))
        requires
            old(self).wf(),
            old(self).sync().holder is Released,
        ensures
            final(self).wf(),
            final(self).sync().holder is Released,
            !final(self).sync().masked,
            !final(self).sync().status,
            final(self).watched() == old(self).watched(),
            final(self).resource_state() == old(self).resource_state(),
            r.0 == old(self).resource_state().level_low,
            r.1 == spec_claim_result(old(self).latched()),
            r.2 == old(self).sync().status,
            !r.2 ==> final(self).latched() is None && final(self).sched() == old(self).sched(),
            r.2 ==> final(self).latched() == spec_publish(None, now),
            r.2 && old(self).sched().task_states()[old(self).watched() as int] is Waiting ==> {
                &&& final(self).sched().task_states() == old(self).sched().task_states().update(
                    old(self).watched() as int,
                    TaskState::Ready,
                )
                &&& final(self).sched().ready_order() == old(self).sched().ready_order().push(
                    old(self).watched(),
                )
                &&& final(self).sched().wake_entries() == without_task(
                    old(self).sched().wake_entries(),
                    old(self).watched(),
                )
            },
            r.2 && !(old(self).sched().task_states()[old(self).watched() as int] is Waiting)
                ==> final(self).sched() == old(self).sched(),
    {
        self.task_acquire();
        let level_low = self.poll_resource();
        let event = self.claim_event();
        let deferred = self.task_release(now);
        (level_low, event, deferred)
    }

    /// Leave the task-side critical section: release the lock and unmask.
    /// An edge that pended during the critical section is delivered now,
    /// exactly as a fresh one would be. Returns whether a deferred handler
    /// ran. The abstract synchronization state takes a
    /// [`SysEvent::TaskRelease`] step.
    pub fn task_release(&mut self, now: u32) -> (delivered: bool)
        requires
            old(self).wf(),
            old(self).sync().holder is TaskContext,
        ensures
            final(self).wf(),
            final(self).sync() == sys_step(old(self).sync(), SysEvent::TaskRelease),
            final(self).sync().holder is Released,
            final(self).watched() == old(self).watched(),
            final(self).resource_state() == old(self).resource_state(),
            delivered == delivers(old(self).sync(), SysEvent::TaskRelease),
            !delivered ==> final(self).latched() == old(self).latched() && final(self).sched()
                == old(self).sched(),
            delivered ==> final(self).latched() == spec_publish(old(self).latched(), now),
            delivered && old(self).sched().task_states()[old(self).watched() as int] is Waiting
                ==> {
                &&& final(self).sched().task_states() == old(self).sched().task_states().update(
                    old(self).watched() as int,
                    TaskState::Ready,
                )
                &&& final(self).sched().ready_order() == old(self).sched().ready_order().push(
                    old(self).watched(),
                )
                &&& final(self).sched().wake_entries() == without_task(
                    old(self).sched().wake_entries(),
                    old(self).watched(),
                )
            },
            delivered && !(old(self).sched().task_states()[old(self).watched() as int] is Waiting)
                ==> final(self).sched() == old(self).sched(),
    {
        self.lock.release_from_task();
        if self.dispatcher.pending() {
            self.dispatcher.dispatch(now, &mut self.latch, &mut self.lock, &mut self.scheduler);
            true
        } else {
            false
        }
    }
}

} // verus!
