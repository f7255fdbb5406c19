//! The scheduler run loop over the two demonstration tasks, verified.
//!
//! A [`Runner`] assembles a [`System`] with the alternating blinker and the
//! button-follower. One [`Runner::round`] resumes every ready task, oldest
//! first; each task body runs until it voluntarily suspends with a
//! deadline, and the round ends when no task is ready — the moment the real
//! system would enter its low-power wait for the next interrupt. The round
//! returns the board actions the tasks decided on; performing them (driving
//! lamp pins, writing trace lines) is the environment's job.

use vstd::prelude::*;
use crate::latch::InterruptEvent;
use crate::latch::spec_publish;
use crate::scheduler::TaskState;
use crate::system::System;
use crate::tasks::BlinkPhase;
use crate::tasks::BlinkTask;
use crate::tasks::LampAction;
use crate::tasks::LampCommand;
use crate::tasks::LampTask;
use crate::tasks::POLL_HOLD_TICKS;
use crate::tasks::spec_blink_command;
use crate::tasks::spec_blink_next;
use crate::tasks::spec_lamp_count;
use crate::tasks::spec_lamp_note;
use crate::ticks::spec_wrap_add;

verus! {

/// Identity of the blinker task.
pub const BLINK_TASK_ID: usize = 0;

/// Identity of the button-follower task, the one the edge interrupt wakes.
pub const LAMP_TASK_ID: usize = 1;

/// How many tasks the demonstration runs.
pub const TASK_COUNT: usize = 2;

/// One action a resumed task asks the board to perform.
#[derive(Clone, Copy, PartialEq, Eq, Structural, Debug)]
pub enum BoardAction {
    /// The blinker drives one of its two lamps.
    Drive(LampCommand),
    /// The button-follower drives the green lamp and reports its poll.
    Green(LampAction),
}

/// The wait a resumed task requests, by task identity.
pub open spec fn spec_hold(t: usize) -> u32 {
    if t == BLINK_TASK_ID {
        crate::tasks::BLINK_HOLD_TICKS
    } else {
        POLL_HOLD_TICKS
    }
}

/// The substrate wired to its two tasks.
pub struct Runner {
    sys: System,
    blink: BlinkTask,
    lamp: LampTask,
}

impl Runner {
    /// The assembled system.
    pub closed spec fn sys(&self) -> System {
        self.sys
    }

    /// The blinker's coming phase.
    pub closed spec fn blink_phase(&self) -> BlinkPhase {
        self.blink.phase()
    }

    /// The button-follower's consecutive-low count.
    pub closed spec fn lamp_count(&self) -> u32 {
        self.lamp.count()
    }

    /// Well-formedness: the system invariants, both task identities in
    /// range, the edge interrupt bound to the button-follower, and no task
    /// holding the resource lock between resumptions.
    pub open spec fn wf(&self) -> bool {
        &&& self.sys().wf()
        &&& self.sys().sched().task_states().len() == TASK_COUNT
        &&& self.sys().watched() == LAMP_TASK_ID
        &&& self.sys().sync().holder is Released
    }

    /// The action task `t` decides on when resumed from state `r`.
    pub open spec fn spec_action(r: Runner, t: usize) -> BoardAction {
        if t == BLINK_TASK_ID {
            BoardAction::Drive(spec_blink_command(r.blink_phase()))
        } else {
            BoardAction::Green(
                LampAction {
                    green_high: r.sys().resource_state().level_low,
                    note: spec_lamp_note(r.lamp_count(), r.sys().resource_state().level_low),
                    hold_ticks: POLL_HOLD_TICKS,
                },
            )
        }
    }

    /// A fresh runner: both tasks spawned ready, blinker first.
    pub fn new() -> (r: Runner)
        ensures
            r.wf(),
            r.sys().sched().idle(),
            r.sys().sched().ready_order().len() == TASK_COUNT,
            r.sys().sched().ready_order()[0] == BLINK_TASK_ID,
            r.sys().sched().ready_order()[1] == LAMP_TASK_ID,
            r.blink_phase() == BlinkPhase::RedOn,
            r.lamp_count() == 0,
            r.sys().latched() is None,
            !r.sys().sync().status,
            !r.sys().resource_state().level_low,
    {
        Runner {
            sys: System::new(TASK_COUNT, LAMP_TASK_ID),
            blink: BlinkTask::new(),
            lamp: LampTask::new(),
        }
    }

    /// The system, for delivering hardware events between rounds.
    pub fn system(&mut self) -> (sys: &mut System)
        ensures
            *sys == old(self).sys(),
            final(self).sys() == *final(sys),
            final(self).blink_phase() == old(self).blink_phase(),
            final(self).lamp_count() == old(self).lamp_count(),
    {
        &mut self.sys
    }

    /// One scheduler round at counter value `now`: resume the ready tasks,
    /// oldest first, each until it suspends. Returns their actions in
    /// resumption order; afterwards no task is ready and the caller waits
    /// for the next interrupt. Each resumed task ends up waiting for its
    /// own hold time, the blinker advances one phase if it ran, and the
    /// button-follower — if it ran — observes the line under the lock,
    /// consumes the latched event, and lets a deferred edge be delivered
    /// at its release.
    pub fn round(&mut self, now: u32) -> (acts: Vec<BoardAction>)
        requires
            old(self).wf(),
            old(self).sys().sched().idle(),
        ensures
            final(self).wf(),
            final(self).sys().sched().idle(),
            final(self).sys().sched().ready_order().len() == 0,
            final(self).sys().resource_state() == old(self).sys().resource_state(),
            acts@.len() == old(self).sys().sched().ready_order().len(),
            forall|k: int|
                0 <= k < acts@.len() ==> acts@[k] == Runner::spec_action(
                    *old(self),
                    old(self).sys().sched().ready_order()[k],
                ),
            final(self).blink_phase() == (if old(self).sys().sched().ready_order().contains(
                BLINK_TASK_ID,
            ) {
                spec_blink_next(old(self).blink_phase())
            } else {
                old(self).blink_phase()
            }),
            final(self).lamp_count() == (if old(self).sys().sched().ready_order().contains(
                LAMP_TASK_ID,
            ) {
                spec_lamp_count(old(self).lamp_count(), old(self).sys().resource_state().level_low)
            } else {
                old(self).lamp_count()
            }),
            final(self).sys().sync().status == (old(self).sys().sync().status && !old(
                self,
            ).sys().sched().ready_order().contains(LAMP_TASK_ID)),
            final(self).sys().latched() == (if old(self).sys().sched().ready_order().contains(
                LAMP_TASK_ID,
            ) {
                if old(self).sys().sync().status {
                    spec_publish(None, now)
                } else {
                    Option::<InterruptEvent>::None
                }
            } else {
                old(self).sys().latched()
            }),
            forall|t: usize|
                t < TASK_COUNT ==> #[trigger] final(self).sys().sched().task_states()[t as int]
                    == (if old(self).sys().sched().ready_order().contains(t) {
                    TaskState::Waiting { deadline: spec_wrap_add(now, spec_hold(t)) }
                } else {
                    old(self).sys().sched().task_states()[t as int]
                }),
    {
        let ghost orig = *old(self);
        let ghost start_ready = old(self).sys().sched().ready_order();
        let mut acts: Vec<BoardAction> = Vec::new();
        loop
            invariant
                self.wf(),
                self.sys().sched().idle(),
                self.sys().resource_state() == orig.sys().resource_state(),
                acts@.len() <= start_ready.len(),
                self.sys().sched().ready_order() =~= start_ready.subrange(
                    acts@.len() as int,
                    start_ready.len() as int,
                ),
                forall|k: int|
                    0 <= k < acts@.len() ==> acts@[k] == Runner::spec_action(
                        orig,
                        start_ready[k],
                    ),
                self.blink_phase() == (if start_ready.subrange(0, acts@.len() as int).contains(
                    BLINK_TASK_ID,
                ) {
                    spec_blink_next(orig.blink_phase())
                } else {
                    orig.blink_phase()
                }),
                self.lamp_count() == (if start_ready.subrange(0, acts@.len() as int).contains(
                    LAMP_TASK_ID,
                ) {
                    spec_lamp_count(orig.lamp_count(), orig.sys().resource_state().level_low)
                } else {
                    orig.lamp_count()
                }),
                self.sys().sync().status == (orig.sys().sync().status && !start_ready.subrange(
                    0,
                    acts@.len() as int,
                ).contains(LAMP_TASK_ID)),
                self.sys().latched() == (if start_ready.subrange(0, acts@.len() as int).contains(
                    LAMP_TASK_ID,
                ) {
                    if orig.sys().sync().status {
                        spec_publish(None, now)
                    } else {
                        Option::<InterruptEvent>::None
                    }
                } else {
                    orig.sys().latched()
                }),
                forall|t: usize|
                    t < TASK_COUNT ==> #[trigger] self.sys().sched().task_states()[t as int] == (
                    if start_ready.subrange(0, acts@.len() as int).contains(t) {
                        TaskState::Waiting { deadline: spec_wrap_add(now, spec_hold(t)) }
                    } else {
                        orig.sys().sched().task_states()[t as int]
                    }),
                orig.wf(),
                start_ready == orig.sys().sched().ready_order(),
            ensures
                self.wf(),
                self.sys().sched().idle(),
                self.sys().resource_state() == orig.sys().resource_state(),
                acts@.len() == start_ready.len(),
                self.sys().sched().ready_order().len() == 0,
                forall|k: int|
                    0 <= k < acts@.len() ==> acts@[k] == Runner::spec_action(
                        orig,
                        start_ready[k],
                    ),
                self.blink_phase() == (if start_ready.contains(BLINK_TASK_ID) {
                    spec_blink_next(orig.blink_phase())
                } else {
                    orig.blink_phase()
                }),
                self.lamp_count() == (if start_ready.contains(LAMP_TASK_ID) {
                    spec_lamp_count(orig.lamp_count(), orig.sys().resource_state().level_low)
                } else {
                    orig.lamp_count()
                }),
                self.sys().sync().status == (orig.sys().sync().status && !start_ready.contains(
                    LAMP_TASK_ID,
                )),
                self.sys().latched() == (if start_ready.contains(LAMP_TASK_ID) {
                    if orig.sys().sync().status {
                        spec_publish(None, now)
                    } else {
                        Option::<InterruptEvent>::None
                    }
                } else {
                    orig.sys().latched()
                }),
                forall|t: usize|
                    t < TASK_COUNT ==> #[trigger] self.sys().sched().task_states()[t as int] == (
                    if start_ready.contains(t) {
                        TaskState::Waiting { deadline: spec_wrap_add(now, spec_hold(t)) }
                    } else {
                        orig.sys().sched().task_states()[t as int]
                    }),
            decreases self.sys().sched().ready_order().len(),
        {
            let ghost j = acts@.len() as int;
            let next = self.sys.next_task();
            let t = match next {
                Some(t) => t,
                None => {
                    proof {
                        assert(start_ready.subrange(j, start_ready.len() as int).len() == 0);
                        assert(acts@.len() == start_ready.len());
                        assert(start_ready.subrange(0, start_ready.len() as int) =~= start_ready);
                    }
                    break ;
                },
            };
            proof {
                assert(start_ready.subrange(j, start_ready.len() as int)[0] == start_ready[j]);
                assert(t == start_ready[j]);
                assert((t as int) < TASK_COUNT as int);
                assert(!start_ready.subrange(0, j).contains(t)) by {
                    if start_ready.subrange(0, j).contains(t) {
                        let k = choose|k: int|
                            0 <= k < j && start_ready.subrange(0, j)[k] == t;
                        assert(start_ready[k] == start_ready[j]);
                    }
                }
            }
            if t == BLINK_TASK_ID {
                let cmd = self.blink.step();
                acts.push(BoardAction::Drive(cmd));
                proof {
                    assert(cmd.hold_ticks == crate::tasks::BLINK_HOLD_TICKS);
                }
                self.sys.sleep(t, now, cmd.hold_ticks);
            } else {
                proof {
                    assert(t == LAMP_TASK_ID);
                    assert(self.sys().sched().task_states()[LAMP_TASK_ID as int] is Running);
                }
                let observed = self.sys.observe(now);
                let act = self.lamp.step(observed.0);
                acts.push(BoardAction::Green(act));
                self.sys.sleep(t, now, act.hold_ticks);
            }
            proof {
                let done = start_ready.subrange(0, j + 1);
                assert(done.drop_last() =~= start_ready.subrange(0, j));
                assert(done.last() == t);
                assert(self.sys().sched().ready_order() =~= start_ready.subrange(
                    j + 1,
                    start_ready.len() as int,
                ));
                assert forall|u: usize| u < TASK_COUNT implies #[trigger] self.sys().sched().task_states()[u as int]
                    == (if done.contains(u) {
                    TaskState::Waiting { deadline: spec_wrap_add(now, spec_hold(u)) }
                } else {
                    orig.sys().sched().task_states()[u as int]
                }) by {
                    let pre = start_ready.subrange(0, j);
                    if u == t {
                        assert(done[j] == t);
                        assert(done.contains(u));
                    } else {
                        if done.contains(u) {
                            let k = choose|k: int| 0 <= k < done.len() && done[k] == u;
                            assert(k < j);
                            assert(pre[k] == u);
                            assert(pre.contains(u));
                        }
                        if pre.contains(u) {
                            let k = choose|k: int| 0 <= k < pre.len() && pre[k] == u;
                            assert(done[k] == u);
                        }
                    }
                }
                assert forall|k: int| 0 <= k < acts@.len() implies acts@[k] == Runner::spec_action(
                    orig,
                    start_ready[k],
                ) by {
                    if k < j {
                    } else {
                        assert(acts@[k] == acts@[acts@.len() - 1]);
                    }
                }
            }
        }
        acts
    }
}

} // verus!
