//! Cooperative, non-preemptive task scheduling over a fixed task set.
//!
//! Each task is identified by its index and carries one of four states:
//! `Ready` (runnable, queued FIFO), `Running` (resumed, at most one at a
//! time), `Waiting` (suspended until an absolute deadline, registered in
//! the timer queue), or `Done` (terminal). The scheduler resumes the oldest
//! `Ready` task; a resumed task runs until it voluntarily suspends with a
//! deadline or completes, so execution order is deterministic for a given
//! sequence of ticks and wakes.

use vstd::prelude::*;
use crate::ticks::deadline_after;
use crate::ticks::spec_wrap_add;
use crate::timer_queue::MonotonicTimerQueue;
use crate::timer_queue::WakeEntry;
use crate::timer_queue::contains_task;
use crate::timer_queue::distinct_tasks;
use crate::timer_queue::due_tasks;
use crate::timer_queue::kept_entries;
use crate::timer_queue::without_task;
use crate::timer_queue::lemma_due_tasks_exact;
use crate::timer_queue::lemma_kept_entries_exact;
use crate::timer_queue::lemma_kept_entries_sub;
use crate::timer_queue::lemma_tick_distinct;
use crate::timer_queue::lemma_wake_exactly_once;
use crate::timer_queue::lemma_without_task_props;

verus! {

/// Lifecycle state of one cooperative task.
#[derive(Clone, Copy, PartialEq, Eq, Structural, Debug)]
pub enum TaskState {
    /// Runnable; queued in FIFO order behind the other ready tasks.
    Ready,
    /// Currently resumed. At most one task is running at a time.
    Running,
    /// Suspended until the absolute tick `deadline` is reached.
    Waiting { deadline: u32 },
    /// Terminated; never scheduled again.
    Done,
}

/// Owns the fixed task set: per-task state, the FIFO ready queue, and the
/// timer queue of wake deadlines.
pub struct TaskScheduler {
    states: Vec<TaskState>,
    ready: Vec<usize>,
    timer: MonotonicTimerQueue,
}

impl TaskScheduler {
    /// Per-task states, indexed by task identity.
    pub closed spec fn task_states(&self) -> Seq<TaskState> {
        self.states@
    }

    /// Identities of the ready tasks, oldest first.
    pub closed spec fn ready_order(&self) -> Seq<usize> {
        self.ready@
    }

    /// Registered wake deadlines, in registration order.
    pub closed spec fn wake_entries(&self) -> Seq<WakeEntry> {
        self.timer@
    }

    /// Structural invariant: the ready queue lists exactly the `Ready`
    /// tasks, each once and in FIFO order; the timer queue registers
    /// exactly the `Waiting` tasks, each once and with its deadline; and at
    /// most one task is `Running`.
    pub open spec fn wf(&self) -> bool {
        &&& forall|k: int|
            0 <= k < self.ready_order().len() ==> ((#[trigger] self.ready_order()[k]) as int)
                < self.task_states().len()
        &&& forall|k: int, l: int|
            0 <= k < l < self.ready_order().len() ==> self.ready_order()[k]
                != self.ready_order()[l]
        &&& forall|k: int|
            0 <= k < self.ready_order().len() ==> self.task_states()[(
            #[trigger] self.ready_order()[k]) as int] is Ready
        &&& forall|i: usize|
            i < self.task_states().len() && (#[trigger] self.task_states()[i as int]) is Ready
                ==> self.ready_order().contains(i)
        &&& distinct_tasks(self.wake_entries())
        &&& forall|k: int|
            0 <= k < self.wake_entries().len() ==> (((#[trigger] self.wake_entries()[k]).task) as int)
                < self.task_states().len() && self.task_states()[self.wake_entries()[k].task as int]
                == (TaskState::Waiting { deadline: self.wake_entries()[k].deadline })
        &&& forall|i: usize|
            i < self.task_states().len() && (#[trigger] self.task_states()[i as int]) is Waiting
                ==> contains_task(self.wake_entries(), i)
        &&& forall|i: int, j: int|
            0 <= i < self.task_states().len() && 0 <= j < self.task_states().len() && (
            #[trigger] self.task_states()[i]) is Running && (
            #[trigger] self.task_states()[j]) is Running ==> i == j
    }

    /// No task is currently resumed.
    pub open spec fn idle(&self) -> bool {
        forall|i: int|
            0 <= i < self.task_states().len() ==> !((#[trigger] self.task_states()[i]) is Running)
    }

    /// A scheduler over tasks `0..count`, all initially ready, queued in
    /// identity order — the order in which the system spawns them at boot.
    pub fn new(count: usize) -> (s: TaskScheduler)
        ensures
            s.wf(),
            s.idle(),
            s.task_states() == Seq::new(count as nat, |i: int| TaskState::Ready),
            s.ready_order() == Seq::new(count as nat, |i: int| i as usize),
            s.wake_entries() == Seq::<WakeEntry>::empty(),
    {
        let mut states: Vec<TaskState> = Vec::new();
        let mut ready: Vec<usize> = Vec::new();
        let mut i: usize = 0;
        while i < count
            invariant
                0 <= i <= count,
                states@ =~= Seq::new(i as nat, |k: int| TaskState::Ready),
                ready@ =~= Seq::new(i as nat, |k: int| k as usize),
            decreases count - i,
        {
            states.push(TaskState::Ready);
            ready.push(i);
            proof {
                assert(states@ =~= Seq::new((i + 1) as nat, |k: int| TaskState::Ready));
                assert(ready@ =~= Seq::new((i + 1) as nat, |k: int| k as usize));
            }
            i += 1;
        }
        let s = TaskScheduler { states, ready, timer: MonotonicTimerQueue::new() };
        proof {
            assert forall|i: usize|
                i < s.task_states().len() && (#[trigger] s.task_states()[i as int]) is Ready
                    implies s.ready_order().contains(i) by {
                assert(s.ready_order()[i as int] == i);
            }
        }
        s
    }

    /// How many tasks the scheduler owns.
    pub fn task_count(&self) -> (n: usize)
        ensures
            n == self.task_states().len(),
    {
        self.states.len()
    }

    /// The current state of task `t`.
    pub fn state_of(&self, t: usize) -> (s: TaskState)
        requires
            t < self.task_states().len(),
        ensures
            s == self.task_states()[t as int],
    {
        self.states[t]
    }

    /// Pick the task to resume: the oldest ready task, removed from the
    /// ready queue and marked `Running`. Returns nothing when no task is
    /// ready — the idle case, in which the caller waits for the next
    /// interrupt. Called only between task resumptions, never while a task
    /// is running.
    pub fn next_task(&mut self) -> (r: Option<usize>)
        requires
            old(self).wf(),
            old(self).idle(),
        ensures
            final(self).wf(),
            old(self).ready_order().len() == 0 ==> r is None && *final(self) == *old(self),
            old(self).ready_order().len() > 0 ==> {
                &&& r == Some(old(self).ready_order()[0])
                &&& final(self).ready_order() == old(self).ready_order().drop_first()
                &&& final(self).task_states() == old(self).task_states().update(
                    old(self).ready_order()[0] as int,
                    TaskState::Running,
                )
                &&& final(self).wake_entries() == old(self).wake_entries()
            },
    {
        if self.ready.len() == 0 {
            return None;
        }
        let t = self.ready.remove(0);
        self.states.set(t, TaskState::Running);
        proof {
            let prev = old(self);
            assert(self.ready_order() =~= prev.ready_order().drop_first());
            assert(t == prev.ready_order()[0]);
            assert(self.task_states()[t as int] == TaskState::Running);
            assert forall|i: usize|
                i < self.task_states().len() && (#[trigger] self.task_states()[i as int]) is Ready
                    implies self.ready_order().contains(i) by {
                assert(i != t);
                assert(prev.task_states()[i as int] is Ready);
                assert(prev.ready_order().contains(i));
                let k = choose|k: int|
                    0 <= k < prev.ready_order().len() && prev.ready_order()[k] == i;
                assert(k != 0);
                assert(self.ready_order()[k - 1] == i);
            }
        }
        Some(t)
    }

    /// Suspend the running task `t` until `delta` ticks past the counter
    /// value `now`: the task moves to `Waiting` and its absolute deadline
    /// is registered with the timer queue.
    pub fn sleep(&mut self, t: usize, now: u32, delta: u32)
        requires
            old(self).wf(),
            t < old(self).task_states().len(),
            old(self).task_states()[t as int] is Running,
        ensures
            final(self).wf(),
            final(self).idle(),
            final(self).task_states() == old(self).task_states().update(
                t as int,
                TaskState::Waiting { deadline: spec_wrap_add(now, delta) },
            ),
            final(self).ready_order() == old(self).ready_order(),
            final(self).wake_entries() == old(self).wake_entries().push(
                WakeEntry { task: t, deadline: spec_wrap_add(now, delta) },
            ),
    {
        let deadline = deadline_after(now, delta);
        proof {
            if contains_task(self.wake_entries(), t) {
                let k = choose|k: int|
                    0 <= k < self.wake_entries().len() && self.wake_entries()[k].task == t;
                assert(self.task_states()[t as int] is Waiting);
            }
        }
        self.states.set(t, TaskState::Waiting { deadline });
        self.timer.sleep_until(t, deadline);
        proof {
            let prev = old(self);
            assert forall|k: int| 0 <= k < self.ready_order().len() implies self.task_states()[(
            #[trigger] self.ready_order()[k]) as int] is Ready by {
                assert(prev.task_states()[prev.ready_order()[k] as int] is Ready);
            }
            assert forall|i: usize|
                i < self.task_states().len() && (#[trigger] self.task_states()[i as int]) is Waiting
                    implies contains_task(self.wake_entries(), i) by {
                if i == t {
                    assert(self.wake_entries()[self.wake_entries().len() - 1].task == t);
                } else {
                    assert(prev.task_states()[i as int] is Waiting);
                    let k = choose|k: int|
                        0 <= k < prev.wake_entries().len() && prev.wake_entries()[k].task == i;
                    assert(self.wake_entries()[k].task == i);
                }
            }
        }
    }

    /// Retire the running task `t`: it moves to the terminal `Done` state
    /// and is never scheduled again.
    pub fn complete(&mut self, t: usize)
        requires
            old(self).wf(),
            t < old(self).task_states().len(),
            old(self).task_states()[t as int] is Running,
        ensures
            final(self).wf(),
            final(self).idle(),
            final(self).task_states() == old(self).task_states().update(t as int, TaskState::Done),
            final(self).ready_order() == old(self).ready_order(),
            final(self).wake_entries() == old(self).wake_entries(),
    {
        proof {
            if contains_task(self.wake_entries(), t) {
                let k = choose|k: int|
                    0 <= k < self.wake_entries().len() && self.wake_entries()[k].task == t;
                assert(self.task_states()[t as int] is Waiting);
            }
        }
        self.states.set(t, TaskState::Done);
        proof {
            let prev = old(self);
            assert forall|k: int| 0 <= k < self.ready_order().len() implies self.task_states()[(
            #[trigger] self.ready_order()[k]) as int] is Ready by {
                assert(prev.task_states()[prev.ready_order()[k] as int] is Ready);
            }
        }
    }

    /// Wake task `t` immediately, bypassing the timer queue: used by the
    /// interrupt dispatcher. A waiting task loses its wake entry and joins
    /// the back of the ready queue; a task in any other state is left
    /// alone (it is already runnable, running, or permanently done).
    pub fn wake(&mut self, t: usize)
        requires
            old(self).wf(),
            t < old(self).task_states().len(),
        ensures
            final(self).wf(),
            old(self).task_states()[t as int] is Waiting ==> {
                &&& final(self).task_states() == old(self).task_states().update(
                    t as int,
                    TaskState::Ready,
                )
                &&& final(self).ready_order() == old(self).ready_order().push(t)
                &&& final(self).wake_entries() == without_task(old(self).wake_entries(), t)
            },
            !(old(self).task_states()[t as int] is Waiting) ==> *final(self) == *old(self),
    {
        let waiting = match self.states[t] {
            TaskState::Waiting { .. } => true,
            _ => false,
        };
        if !waiting {
            return;
        }
        proof {
            lemma_without_task_props(self.wake_entries(), t);
        }
        self.timer.remove_task(t);
        self.states.set(t, TaskState::Ready);
        self.ready.push(t);
        proof {
            let prev = old(self);
            let entries = without_task(prev.wake_entries(), t);
            assert forall|k: int, l: int|
                0 <= k < l < self.ready_order().len() implies self.ready_order()[k]
                != self.ready_order()[l] by {
                if l == self.ready_order().len() - 1 {
                    if self.ready_order()[k] == t {
                        assert(prev.task_states()[prev.ready_order()[k] as int] is Ready);
                    }
                }
            }
            assert forall|k: int| 0 <= k < self.ready_order().len() implies self.task_states()[(
            #[trigger] self.ready_order()[k]) as int] is Ready by {
                if k < prev.ready_order().len() {
                    assert(prev.task_states()[prev.ready_order()[k] as int] is Ready);
                }
            }
            assert forall|i: usize|
                i < self.task_states().len() && (#[trigger] self.task_states()[i as int]) is Ready
                    implies self.ready_order().contains(i) by {
                if i == t {
                    assert(self.ready_order()[self.ready_order().len() - 1] == t);
                } else {
                    assert(prev.task_states()[i as int] is Ready);
                    let k = choose|k: int|
                        0 <= k < prev.ready_order().len() && prev.ready_order()[k] == i;
                    assert(self.ready_order()[k] == i);
                }
            }
            assert forall|k: int| 0 <= k < entries.len() implies (((#[trigger] entries[k]).task) as int)
                < self.task_states().len() && self.task_states()[entries[k].task as int] == (
            TaskState::Waiting { deadline: entries[k].deadline }) by {
                let i = choose|i: int|
                    0 <= i < prev.wake_entries().len() && prev.wake_entries()[i] == entries[k];
                assert(prev.task_states()[entries[k].task as int] == (TaskState::Waiting {
                    deadline: entries[k].deadline,
                }));
            }
            assert(self.task_states()[t as int] == TaskState::Ready);
            assert forall|i: usize|
                i < self.task_states().len() && (#[trigger] self.task_states()[i as int]) is Waiting
                    implies contains_task(self.wake_entries(), i) by {
                assert(i != t);
                assert(prev.task_states()[i as int] is Waiting);
                assert(contains_task(prev.wake_entries(), i));
            }
        }
    }

    /// Deliver one timer tick at counter value `now`: every waiting task
    /// whose deadline has been reached becomes ready, joining the back of
    /// the ready queue in registration order, and its wake entry is
    /// consumed. Returns the tasks woken by this tick, oldest registration
    /// first.
    pub fn on_tick(&mut self, now: u32) -> (woken: Vec<usize>)
        requires
            old(self).wf(),
        ensures
            final(self).wf(),
            woken@ == due_tasks(old(self).wake_entries(), now),
            final(self).wake_entries() == kept_entries(old(self).wake_entries(), now),
            final(self).ready_order() == old(self).ready_order() + woken@,
            final(self).task_states().len() == old(self).task_states().len(),
            forall|i: usize|
                i < old(self).task_states().len() ==> #[trigger] final(self).task_states()[i as int]
                    == if woken@.contains(i) {
                    TaskState::Ready
                } else {
                    old(self).task_states()[i as int]
                },
    {
        let ghost prev = *old(self);
        proof {
            lemma_tick_distinct(prev.wake_entries(), now);
        }
        let woken = self.timer.tick(now);
        let ghost due = woken@;
        proof {
            assert forall|k: int| 0 <= k < due.len() implies ((#[trigger] due[k]) as int)
                < prev.task_states().len() && prev.task_states()[due[k] as int] is Waiting by {
                lemma_due_tasks_exact(prev.wake_entries(), now, due[k]);
                assert(due.contains(due[k]));
            }
        }
        let mut j: usize = 0;
        while j < woken.len()
            invariant
                0 <= j <= woken.len(),
                woken@ == due,
                due == due_tasks(prev.wake_entries(), now),
                crate::timer_queue::distinct_seq(due),
                forall|k: int|
                    0 <= k < due.len() ==> ((#[trigger] due[k]) as int) < prev.task_states().len()
                        && prev.task_states()[due[k] as int] is Waiting,
                self.task_states().len() == prev.task_states().len(),
                self.wake_entries() == kept_entries(prev.wake_entries(), now),
                self.ready_order() =~= prev.ready_order() + due.subrange(0, j as int),
                forall|i: usize|
                    i < prev.task_states().len() ==> #[trigger] self.task_states()[i as int] == (
                    if due.subrange(0, j as int).contains(i) {
                        TaskState::Ready
                    } else {
                        prev.task_states()[i as int]
                    }),
            decreases woken.len() - j,
        {
            let t = woken[j];
            proof {
                assert(due[j as int] == t);
                assert(!due.subrange(0, j as int).contains(t));
            }
            self.states.set(t, TaskState::Ready);
            self.ready.push(t);
            proof {
                assert(due.subrange(0, j + 1).drop_last() =~= due.subrange(0, j as int));
                assert(due.subrange(0, j + 1).last() == t);
                assert(self.ready_order() =~= prev.ready_order() + due.subrange(0, j + 1));
                assert forall|i: usize| i < prev.task_states().len() implies
                    #[trigger] self.task_states()[i as int] == (if due.subrange(0, j + 1).contains(
                    i,
                ) {
                    TaskState::Ready
                } else {
                    prev.task_states()[i as int]
                }) by {
                    let pre = due.subrange(0, j as int);
                    let post = due.subrange(0, j + 1);
                    if i == t {
                        assert(post[j as int] == t);
                        assert(post.contains(t));
                    } else {
                        if post.contains(i) {
                            let k = choose|k: int| 0 <= k < post.len() && post[k] == i;
                            assert(k < j);
                            assert(pre[k] == i);
                            assert(pre.contains(i));
                        }
                        if pre.contains(i) {
                            let k = choose|k: int| 0 <= k < pre.len() && pre[k] == i;
                            assert(post[k] == i);
                        }
                    }
                }
            }
            j += 1;
        }
        proof {
            assert(due.subrange(0, due.len() as int) =~= due);
            assert(self.ready_order() == prev.ready_order() + due);
            assert(prev.task_states().len() <= usize::MAX) by {
                assert(vstd::std_specs::vec::spec_vec_len(&prev.states) == prev.states@.len());
            }
            lemma_on_tick_wf(prev, *self, now);
        }
        woken
    }
}

/// Law: a registered wait makes a round trip exactly once. Let `s0` be a
/// well-formed scheduler whose task `t` is running, `s1` the scheduler
/// after `t` suspends until `deadline` (as the contract of `sleep` states),
/// and `s2` the scheduler after a tick at `now` that reaches `deadline` (as
/// the contract of `on_tick` states). Then that tick wakes `t`: the task is
/// `Ready` again, queued exactly once, its wake entry is consumed, and no
/// later tick can wake it again until it registers anew.
pub proof fn lemma_round_trip_wakes_once(
    s0: TaskScheduler,
    s1: TaskScheduler,
    s2: TaskScheduler,
    t: usize,
    deadline: u32,
    now: u32,
    woken: Seq<usize>,
)
    requires
        s0.wf(),
        (t as int) < s0.task_states().len(),
        s0.task_states()[t as int] is Running,
        // How `sleep(t, ..)` relates `s1` to `s0`.
        s1.task_states() == s0.task_states().update(t as int, TaskState::Waiting { deadline }),
        s1.ready_order() == s0.ready_order(),
        s1.wake_entries() == s0.wake_entries().push(WakeEntry { task: t, deadline }),
        // How `on_tick(now)` relates `s2` to `s1`.
        crate::ticks::spec_reached(deadline, now),
        woken == due_tasks(s1.wake_entries(), now),
        s2.wake_entries() == kept_entries(s1.wake_entries(), now),
        s2.ready_order() == s1.ready_order() + woken,
        s2.task_states().len() == s1.task_states().len(),
        forall|i: usize|
            i < s1.task_states().len() ==> #[trigger] s2.task_states()[i as int] == if woken.contains(
                i,
            ) {
                TaskState::Ready
            } else {
                s1.task_states()[i as int]
            },
    ensures
        woken.contains(t),
        s2.task_states()[t as int] is Ready,
        s2.ready_order().contains(t),
        forall|k: int, l: int|
            0 <= k < s2.ready_order().len() && 0 <= l < s2.ready_order().len()
                && s2.ready_order()[k] == t && s2.ready_order()[l] == t ==> k == l,
        !contains_task(s2.wake_entries(), t),
        forall|later: u32| !due_tasks(s2.wake_entries(), later).contains(t),
{
    // The running task holds no wake entry, so its registration is fresh.
    assert(!contains_task(s0.wake_entries(), t)) by {
        if contains_task(s0.wake_entries(), t) {
            let k = choose|k: int|
                0 <= k < s0.wake_entries().len() && s0.wake_entries()[k].task == t;
            assert(s0.task_states()[t as int] is Waiting);
        }
    }
    lemma_wake_exactly_once(s0.wake_entries(), t, deadline, now);
    assert(distinct_tasks(s1.wake_entries())) by {
        assert forall|i: int, j: int|
            0 <= i < j < s1.wake_entries().len() implies s1.wake_entries()[i].task
            != s1.wake_entries()[j].task by {
            if j == s1.wake_entries().len() - 1 {
                if s1.wake_entries()[i].task == t {
                    assert(s0.wake_entries()[i].task == t);
                }
            }
        }
    }
    assert(woken.contains(t));
    let m = choose|m: int| 0 <= m < woken.len() && woken[m] == t;
    assert(s2.ready_order()[s1.ready_order().len() + m] == t);
    assert(s2.ready_order().contains(t));
    // The task never sat in the ready queue while running, so its only
    // occurrence is the one the tick appended.
    assert(!s0.ready_order().contains(t)) by {
        if s0.ready_order().contains(t) {
            let k = choose|k: int| 0 <= k < s0.ready_order().len() && s0.ready_order()[k] == t;
            assert(s0.task_states()[t as int] is Ready);
        }
    }
    assert forall|k: int, l: int|
        0 <= k < s2.ready_order().len() && 0 <= l < s2.ready_order().len() && s2.ready_order()[k]
            == t && s2.ready_order()[l] == t implies k == l by {
        let n = s1.ready_order().len() as int;
        if k < n {
            assert(s0.ready_order()[k] == t);
            assert(s0.ready_order().contains(t));
        }
        if l < n {
            assert(s0.ready_order()[l] == t);
            assert(s0.ready_order().contains(t));
        }
        assert(woken[k - n] == t && woken[l - n] == t);
        lemma_tick_distinct(s1.wake_entries(), now);
    }
}

/// The structural invariant survives a timer tick: helper for `on_tick`,
/// relating the post-state pinned down by its loop to `wf`.
proof fn lemma_on_tick_wf(prev: TaskScheduler, cur: TaskScheduler, now: u32)
    requires
        prev.wf(),
        prev.task_states().len() <= usize::MAX,
        cur.task_states().len() == prev.task_states().len(),
        cur.wake_entries() == kept_entries(prev.wake_entries(), now),
        cur.ready_order() == prev.ready_order() + due_tasks(prev.wake_entries(), now),
        forall|i: usize|
            i < prev.task_states().len() ==> #[trigger] cur.task_states()[i as int] == (
            if due_tasks(prev.wake_entries(), now).contains(i) {
                TaskState::Ready
            } else {
                prev.task_states()[i as int]
            }),
    ensures
        cur.wf(),
{
    let due = due_tasks(prev.wake_entries(), now);
    let kept = kept_entries(prev.wake_entries(), now);
    lemma_tick_distinct(prev.wake_entries(), now);
    assert forall|k: int| 0 <= k < due.len() implies ((#[trigger] due[k]) as int)
        < prev.task_states().len() && prev.task_states()[due[k] as int] is Waiting by {
        lemma_due_tasks_exact(prev.wake_entries(), now, due[k]);
        assert(due.contains(due[k]));
    }
    assert forall|k: int| 0 <= k < cur.ready_order().len() implies ((
    #[trigger] cur.ready_order()[k]) as int) < cur.task_states().len() by {
        if k < prev.ready_order().len() {
            assert(cur.ready_order()[k] == prev.ready_order()[k]);
        } else {
            assert(cur.ready_order()[k] == due[k - prev.ready_order().len()]);
        }
    }
    assert forall|k: int, l: int| 0 <= k < l < cur.ready_order().len() implies cur.ready_order()[k]
        != cur.ready_order()[l] by {
        let n = prev.ready_order().len() as int;
        if k < n && l >= n {
            let a = prev.ready_order()[k];
            let b = due[l - n];
            assert(prev.task_states()[a as int] is Ready);
            assert(prev.task_states()[b as int] is Waiting);
        }
    }
    assert forall|k: int| 0 <= k < cur.ready_order().len() implies cur.task_states()[(
    #[trigger] cur.ready_order()[k]) as int] is Ready by {
        let n = prev.ready_order().len() as int;
        if k < n {
            let a = prev.ready_order()[k];
            assert(prev.task_states()[a as int] is Ready);
            if due.contains(a) {
                let m = choose|m: int| 0 <= m < due.len() && due[m] == a;
                assert(prev.task_states()[due[m] as int] is Waiting);
            }
        } else {
            let b = due[k - n];
            assert(due.contains(b));
            assert(cur.task_states()[b as int] == TaskState::Ready);
        }
    }
    assert forall|i: usize|
        i < cur.task_states().len() && (#[trigger] cur.task_states()[i as int]) is Ready
            implies cur.ready_order().contains(i) by {
        if due.contains(i) {
            let m = choose|m: int| 0 <= m < due.len() && due[m] == i;
            assert(cur.ready_order()[prev.ready_order().len() + m] == i);
        } else {
            assert(prev.task_states()[i as int] is Ready);
            let k = choose|k: int|
                0 <= k < prev.ready_order().len() && prev.ready_order()[k] == i;
            assert(cur.ready_order()[k] == i);
        }
    }
    lemma_kept_entries_sub(prev.wake_entries(), now);
    assert forall|k: int| 0 <= k < kept.len() implies (((#[trigger] kept[k]).task) as int)
        < cur.task_states().len() && cur.task_states()[kept[k].task as int] == (TaskState::Waiting {
        deadline: kept[k].deadline,
    }) by {
        let i = choose|i: int|
            0 <= i < prev.wake_entries().len() && prev.wake_entries()[i] == kept[k] && !crate::ticks::spec_reached(
                prev.wake_entries()[i].deadline,
                now,
            );
        assert(prev.task_states()[kept[k].task as int] == (TaskState::Waiting {
            deadline: kept[k].deadline,
        }));
        if due.contains(kept[k].task) {
            assert(!contains_task(kept, kept[k].task));
            assert(kept[k].task == kept[k].task && 0 <= k < kept.len());
        }
    }
    assert forall|i: usize|
        i < cur.task_states().len() && (#[trigger] cur.task_states()[i as int]) is Waiting
            implies contains_task(cur.wake_entries(), i) by {
        assert(!due.contains(i));
        assert(prev.task_states()[i as int] is Waiting);
        assert(contains_task(prev.wake_entries(), i));
        let k = choose|k: int|
            0 <= k < prev.wake_entries().len() && prev.wake_entries()[k].task == i;
        lemma_due_tasks_exact(prev.wake_entries(), now, i);
        assert(!crate::ticks::spec_reached(prev.wake_entries()[k].deadline, now));
        lemma_kept_entries_exact(prev.wake_entries(), now, i);
    }
    assert forall|i: int, j: int|
        0 <= i < cur.task_states().len() && 0 <= j < cur.task_states().len() && (
        #[trigger] cur.task_states()[i]) is Running && (
        #[trigger] cur.task_states()[j]) is Running implies i == j by {
        let iu = i as usize;
        let ju = j as usize;
        assert(cur.task_states()[iu as int] is Running);
        assert(cur.task_states()[ju as int] is Running);
        assert(prev.task_states()[iu as int] is Running);
        assert(prev.task_states()[ju as int] is Running);
    }
}

} // verus!
