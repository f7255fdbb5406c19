//! Wake-deadline bookkeeping for suspended tasks.
//!
//! The queue holds at most one [`WakeEntry`] per task, in registration
//! (FIFO) order. `tick(now)` removes and returns exactly the tasks whose
//! deadline has been reached at `now` under the wrap-safe comparison of
//! [`crate::ticks`], preserving registration order among ties.

use vstd::prelude::*;
use crate::ticks::deadline_reached;
use crate::ticks::spec_reached;

verus! {

/// One suspended task and the absolute counter value at which it must be
/// woken.
#[derive(Clone, Copy, PartialEq, Eq, Structural, Debug)]
pub struct WakeEntry {
    /// Identity of the suspended task.
    pub task: usize,
    /// Absolute tick at which the task becomes runnable again.
    pub deadline: u32,
}

/// No task is registered twice.
pub open spec fn distinct_tasks(entries: Seq<WakeEntry>) -> bool {
    forall|i: int, j: int|
        0 <= i < j < entries.len() ==> entries[i].task != entries[j].task
}

/// Some entry registers task `t`.
pub open spec fn contains_task(entries: Seq<WakeEntry>, t: usize) -> bool {
    exists|i: int| 0 <= i < entries.len() && entries[i].task == t
}

/// No task identity repeats in `s`.
pub open spec fn distinct_seq(s: Seq<usize>) -> bool {
    forall|i: int, j: int| 0 <= i < j < s.len() ==> s[i] != s[j]
}

/// The tasks whose deadline has been reached at `now`, in registration
/// order.
pub open spec fn due_tasks(entries: Seq<WakeEntry>, now: u32) -> Seq<usize>
    decreases entries.len(),
{
    if entries.len() == 0 {
        Seq::empty()
    } else {
        let rest = due_tasks(entries.drop_last(), now);
        if spec_reached(entries.last().deadline, now) {
            rest.push(entries.last().task)
        } else {
            rest
        }
    }
}

/// The entries whose deadline has not been reached at `now`, in
/// registration order.
pub open spec fn kept_entries(entries: Seq<WakeEntry>, now: u32) -> Seq<WakeEntry>
    decreases entries.len(),
{
    if entries.len() == 0 {
        Seq::empty()
    } else {
        let rest = kept_entries(entries.drop_last(), now);
        if spec_reached(entries.last().deadline, now) {
            rest
        } else {
            rest.push(entries.last())
        }
    }
}

/// The entries that do not register task `t`, in registration order.
pub open spec fn without_task(entries: Seq<WakeEntry>, t: usize) -> Seq<WakeEntry>
    decreases entries.len(),
{
    if entries.len() == 0 {
        Seq::empty()
    } else {
        let rest = without_task(entries.drop_last(), t);
        if entries.last().task == t {
            rest
        } else {
            rest.push(entries.last())
        }
    }
}

/// Law: `tick` wakes exactly the registered tasks whose deadline has been
/// reached — a task is in `due_tasks(entries, now)` if and only if some
/// entry registers it with a deadline reached at `now`.
pub proof fn lemma_due_tasks_exact(entries: Seq<WakeEntry>, now: u32, t: usize)
    ensures
        due_tasks(entries, now).contains(t) <==> exists|i: int|
            0 <= i < entries.len() && entries[i].task == t && spec_reached(
                entries[i].deadline,
                now,
            ),
    decreases entries.len(),
{
    if entries.len() > 0 {
        lemma_due_tasks_exact(entries.drop_last(), now, t);
        let rest = due_tasks(entries.drop_last(), now);
        let cur = due_tasks(entries, now);
        if exists|i: int|
            0 <= i < entries.len() && entries[i].task == t && spec_reached(
                entries[i].deadline,
                now,
            ) {
            let i = choose|i: int|
                0 <= i < entries.len() && entries[i].task == t && spec_reached(
                    entries[i].deadline,
                    now,
                );
            if i < entries.len() - 1 {
                assert(entries.drop_last()[i].task == t && spec_reached(
                    entries.drop_last()[i].deadline,
                    now,
                ));
                let k = choose|k: int| 0 <= k < rest.len() && rest[k] == t;
                assert(cur[k] == t);
            } else {
                assert(cur[rest.len() as int] == t);
            }
            assert(cur.contains(t));
        }
        if cur.contains(t) {
            let k = choose|k: int| 0 <= k < cur.len() && cur[k] == t;
            if k < rest.len() {
                assert(rest[k] == t);
                assert(rest.contains(t));
                let i = choose|i: int|
                    0 <= i < entries.drop_last().len() && entries.drop_last()[i].task == t
                        && spec_reached(entries.drop_last()[i].deadline, now);
                assert(entries[i].task == t && spec_reached(entries[i].deadline, now));
            } else {
                assert(entries[entries.len() - 1].task == t && spec_reached(
                    entries[entries.len() - 1].deadline,
                    now,
                ));
            }
        }
    }
}

/// A task registered by the kept entries was registered before the tick.
pub proof fn lemma_kept_entries_exact(entries: Seq<WakeEntry>, now: u32, t: usize)
    ensures
        contains_task(kept_entries(entries, now), t) <==> exists|i: int|
            0 <= i < entries.len() && entries[i].task == t && !spec_reached(
                entries[i].deadline,
                now,
            ),
    decreases entries.len(),
{
    if entries.len() > 0 {
        lemma_kept_entries_exact(entries.drop_last(), now, t);
        let rest = kept_entries(entries.drop_last(), now);
        let cur = kept_entries(entries, now);
        if exists|i: int|
            0 <= i < entries.len() && entries[i].task == t && !spec_reached(
                entries[i].deadline,
                now,
            ) {
            let i = choose|i: int|
                0 <= i < entries.len() && entries[i].task == t && !spec_reached(
                    entries[i].deadline,
                    now,
                );
            if i < entries.len() - 1 {
                assert(entries.drop_last()[i].task == t && !spec_reached(
                    entries.drop_last()[i].deadline,
                    now,
                ));
                let k = choose|k: int| 0 <= k < rest.len() && rest[k].task == t;
                assert(cur[k].task == t);
            } else {
                assert(cur[rest.len() as int].task == t);
            }
            assert(contains_task(cur, t));
        }
        if contains_task(cur, t) {
            let k = choose|k: int| 0 <= k < cur.len() && cur[k].task == t;
            if k < rest.len() {
                assert(rest[k].task == t);
                assert(contains_task(rest, t));
                let i = choose|i: int|
                    0 <= i < entries.drop_last().len() && entries.drop_last()[i].task == t
                        && !spec_reached(entries.drop_last()[i].deadline, now);
                assert(entries[i].task == t && !spec_reached(entries[i].deadline, now));
            } else {
                assert(entries[entries.len() - 1].task == t && !spec_reached(
                    entries[entries.len() - 1].deadline,
                    now,
                ));
            }
        }
    }
}

/// Every kept entry stands, unchanged, somewhere among the old entries.
pub proof fn lemma_kept_entries_sub(entries: Seq<WakeEntry>, now: u32)
    ensures
        forall|k: int|
            0 <= k < kept_entries(entries, now).len() ==> exists|i: int|
                0 <= i < entries.len() && entries[i] == #[trigger] kept_entries(entries, now)[k]
                    && !spec_reached(entries[i].deadline, now),
    decreases entries.len(),
{
    if entries.len() > 0 {
        lemma_kept_entries_sub(entries.drop_last(), now);
        let rest = kept_entries(entries.drop_last(), now);
        assert forall|k: int| 0 <= k < kept_entries(entries, now).len() implies exists|i: int|
            0 <= i < entries.len() && entries[i] == #[trigger] kept_entries(entries, now)[k]
                && !spec_reached(entries[i].deadline, now) by {
            if k < rest.len() {
                let i = choose|i: int|
                    0 <= i < entries.len() - 1 && entries.drop_last()[i] == rest[k]
                        && !spec_reached(entries.drop_last()[i].deadline, now);
                assert(entries[i] == kept_entries(entries, now)[k]);
            } else {
                assert(entries[entries.len() - 1] == kept_entries(entries, now)[k]);
            }
        }
    }
}

/// Distinct registrations wake distinctly and stay distinct: under the
/// one-entry-per-task invariant, no task is woken twice by one tick and the
/// kept entries keep the invariant.
pub proof fn lemma_tick_distinct(entries: Seq<WakeEntry>, now: u32)
    requires
        distinct_tasks(entries),
    ensures
        distinct_seq(due_tasks(entries, now)),
        distinct_tasks(kept_entries(entries, now)),
        forall|t: usize|
            #[trigger] due_tasks(entries, now).contains(t) ==> !contains_task(
                kept_entries(entries, now),
                t,
            ),
    decreases entries.len(),
{
    if entries.len() > 0 {
        assert(distinct_tasks(entries.drop_last()));
        lemma_tick_distinct(entries.drop_last(), now);
        let last = entries.last();
        let rest_due = due_tasks(entries.drop_last(), now);
        let rest_kept = kept_entries(entries.drop_last(), now);
        assert(!contains_task(entries.drop_last(), last.task)) by {
            if contains_task(entries.drop_last(), last.task) {
                let i = choose|i: int|
                    0 <= i < entries.len() - 1 && entries.drop_last()[i].task == last.task;
                assert(entries[i].task == entries[entries.len() - 1].task);
            }
        }
        lemma_due_tasks_exact(entries.drop_last(), now, last.task);
        lemma_kept_entries_exact(entries.drop_last(), now, last.task);
        assert(!rest_due.contains(last.task));
        assert(!contains_task(rest_kept, last.task));
        if spec_reached(last.deadline, now) {
            assert(distinct_seq(rest_due.push(last.task))) by {
                assert forall|i: int, j: int|
                    0 <= i < j < rest_due.push(last.task).len() implies rest_due.push(
                    last.task,
                )[i] != rest_due.push(last.task)[j] by {
                    if j < rest_due.len() {
                    } else {
                        assert(rest_due[i] == rest_due.push(last.task)[i]);
                        if rest_due.push(last.task)[i] == last.task {
                            assert(rest_due.contains(last.task));
                        }
                    }
                }
            }
            assert forall|t: usize| #[trigger]
                due_tasks(entries, now).contains(t) implies !contains_task(
                kept_entries(entries, now),
                t,
            ) by {
                lemma_due_tasks_exact(entries, now, t);
                lemma_kept_entries_exact(entries, now, t);
            }
        } else {
            assert(distinct_tasks(rest_kept.push(last))) by {
                assert forall|i: int, j: int|
                    0 <= i < j < rest_kept.push(last).len() implies rest_kept.push(last)[i].task
                    != rest_kept.push(last)[j].task by {
                    if j < rest_kept.len() {
                    } else {
                        if rest_kept.push(last)[i].task == last.task {
                            assert(rest_kept[i].task == last.task);
                            assert(contains_task(rest_kept, last.task));
                        }
                    }
                }
            }
            assert forall|t: usize| #[trigger]
                due_tasks(entries, now).contains(t) implies !contains_task(
                kept_entries(entries, now),
                t,
            ) by {
                lemma_due_tasks_exact(entries, now, t);
                lemma_kept_entries_exact(entries, now, t);
            }
        }
    }
}

/// Law: a registered wait fires exactly once. After registering task `t`
/// and ticking past its deadline, `t` is woken by that tick, appears only
/// once in the woken list, is no longer registered afterwards, and no later
/// tick can wake it again until it is re-registered.
pub proof fn lemma_wake_exactly_once(entries: Seq<WakeEntry>, t: usize, d: u32, now: u32)
    requires
        distinct_tasks(entries),
        !contains_task(entries, t),
        spec_reached(d, now),
    ensures
        due_tasks(entries.push(WakeEntry { task: t, deadline: d }), now).contains(t),
        distinct_seq(due_tasks(entries.push(WakeEntry { task: t, deadline: d }), now)),
        !contains_task(kept_entries(entries.push(WakeEntry { task: t, deadline: d }), now), t),
        forall|later: u32|
            !due_tasks(
                kept_entries(entries.push(WakeEntry { task: t, deadline: d }), now),
                later,
            ).contains(t),
{
    let after = entries.push(WakeEntry { task: t, deadline: d });
    assert(distinct_tasks(after)) by {
        assert forall|i: int, j: int| 0 <= i < j < after.len() implies after[i].task
            != after[j].task by {
            if j < entries.len() {
            } else {
                if after[i].task == t {
                    assert(entries[i].task == t);
                }
            }
        }
    }
    assert(after[after.len() - 1].task == t && spec_reached(after[after.len() - 1].deadline, now));
    lemma_due_tasks_exact(after, now, t);
    lemma_tick_distinct(after, now);
    lemma_kept_entries_exact(after, now, t);
    assert forall|later: u32|
        !due_tasks(kept_entries(after, now), later).contains(t) by {
        lemma_due_tasks_exact(kept_entries(after, now), later, t);
        if due_tasks(kept_entries(after, now), later).contains(t) {
            assert(contains_task(kept_entries(after, now), t));
        }
    }
}

/// Tracks the absolute wake deadline of each suspended task, in
/// registration order, one live entry per task.
pub struct MonotonicTimerQueue {
    entries: Vec<WakeEntry>,
}

impl MonotonicTimerQueue {
    /// Abstract contents: the registered entries in registration order.
    pub closed spec fn view(&self) -> Seq<WakeEntry> {
        self.entries@
    }

    /// An empty queue.
    pub fn new() -> (q: MonotonicTimerQueue)
        ensures
            q@ == Seq::<WakeEntry>::empty(),
    {
        MonotonicTimerQueue { entries: Vec::new() }
    }

    /// How many tasks are currently registered.
    pub fn len(&self) -> (n: usize)
        ensures
            n == self@.len(),
    {
        self.entries.len()
    }

    /// Whether task `t` currently has a registered wake deadline.
    pub fn contains(&self, t: usize) -> (b: bool)
        ensures
            b == contains_task(self@, t),
    {
        let mut i: usize = 0;
        while i < self.entries.len()
            invariant
                0 <= i <= self.entries.len(),
                forall|k: int| 0 <= k < i ==> self.entries@[k].task != t,
            decreases self.entries.len() - i,
        {
            if self.entries[i].task == t {
                return true;
            }
            i += 1;
        }
        false
    }

    /// Register a wake deadline for task `t`. Registering a task that
    /// already has a live entry is a programming error, ruled out by the
    /// precondition; the scheduler guarantees it by only registering a
    /// task that is leaving the running state.
    pub fn sleep_until(&mut self, t: usize, deadline: u32)
        requires
            distinct_tasks(old(self)@),
            !contains_task(old(self)@, t),
        ensures
            final(self)@ == old(self)@.push(WakeEntry { task: t, deadline }),
            distinct_tasks(final(self)@),
    {
        self.entries.push(WakeEntry { task: t, deadline });
        assert forall|i: int, j: int| 0 <= i < j < self@.len() implies self@[i].task
            != self@[j].task by {
            if j < self@.len() - 1 {
            } else {
                if self@[i].task == t {
                    assert(old(self)@[i].task == t);
                }
            }
        }
    }

    /// Drop the entry of task `t`, if any: the cancellation used when an
    /// interrupt wakes a waiting task ahead of its deadline.
    pub fn remove_task(&mut self, t: usize)
        requires
            distinct_tasks(old(self)@),
        ensures
            final(self)@ == without_task(old(self)@, t),
            distinct_tasks(final(self)@),
            !contains_task(final(self)@, t),
    {
        let ghost all = self.entries@;
        let mut kept: Vec<WakeEntry> = Vec::new();
        let mut i: usize = 0;
        while i < self.entries.len()
            invariant
                0 <= i <= self.entries.len(),
                self.entries@ == all,
                kept@ == without_task(all.subrange(0, i as int), t),
            decreases self.entries.len() - i,
        {
            let e = self.entries[i];
            proof {
                assert(all.subrange(0, i + 1).drop_last() =~= all.subrange(0, i as int));
                assert(all.subrange(0, i + 1).last() == e);
            }
            if e.task != t {
                kept.push(e);
            }
            i += 1;
        }
        proof {
            assert(all.subrange(0, all.len() as int) =~= all);
        }
        self.entries = kept;
        proof {
            lemma_without_task_props(all, t);
        }
    }

    /// Remove and return, in registration order, every task whose deadline
    /// has been reached at `now`; keep the rest.
    pub fn tick(&mut self, now: u32) -> (woken: Vec<usize>)
        requires
            distinct_tasks(old(self)@),
        ensures
            woken@ == due_tasks(old(self)@, now),
            final(self)@ == kept_entries(old(self)@, now),
            distinct_seq(woken@),
            distinct_tasks(final(self)@),
    {
        let ghost all = self.entries@;
        let mut due: Vec<usize> = Vec::new();
        let mut kept: Vec<WakeEntry> = Vec::new();
        let mut i: usize = 0;
        while i < self.entries.len()
            invariant
                0 <= i <= self.entries.len(),
                self.entries@ == all,
                due@ == due_tasks(all.subrange(0, i as int), now),
                kept@ == kept_entries(all.subrange(0, i as int), now),
            decreases self.entries.len() - i,
        {
            let e = self.entries[i];
            proof {
                assert(all.subrange(0, i + 1).drop_last() =~= all.subrange(0, i as int));
                assert(all.subrange(0, i + 1).last() == e);
            }
            if deadline_reached(e.deadline, now) {
                due.push(e.task);
            } else {
                kept.push(e);
            }
            i += 1;
        }
        proof {
            assert(all.subrange(0, all.len() as int) =~= all);
        }
        self.entries = kept;
        proof {
            lemma_tick_distinct(all, now);
        }
        due
    }
}

/// `without_task` removes every entry of the dropped task and nothing
/// else, and keeps the remaining entries distinct.
pub proof fn lemma_without_task_props(entries: Seq<WakeEntry>, t: usize)
    requires
        distinct_tasks(entries),
    ensures
        distinct_tasks(without_task(entries, t)),
        !contains_task(without_task(entries, t), t),
        forall|k: int|
            0 <= k < without_task(entries, t).len() ==> exists|i: int|
                0 <= i < entries.len() && entries[i] == #[trigger] without_task(entries, t)[k],
        forall|u: usize|
            u != t ==> (contains_task(without_task(entries, t), u) <==> contains_task(entries, u)),
    decreases entries.len(),
{
    if entries.len() > 0 {
        assert(distinct_tasks(entries.drop_last()));
        lemma_without_task_props(entries.drop_last(), t);
        let rest = without_task(entries.drop_last(), t);
        let last = entries.last();
        assert forall|k: int| 0 <= k < without_task(entries, t).len() implies exists|i: int|
            0 <= i < entries.len() && entries[i] == #[trigger] without_task(entries, t)[k] by {
            if k < rest.len() {
                let i = choose|i: int|
                    0 <= i < entries.len() - 1 && entries.drop_last()[i] == rest[k];
                assert(entries[i] == without_task(entries, t)[k]);
            } else {
                assert(entries[entries.len() - 1] == without_task(entries, t)[k]);
            }
        }
        if last.task != t {
            assert(!contains_task(entries.drop_last(), last.task)) by {
                if contains_task(entries.drop_last(), last.task) {
                    let i = choose|i: int|
                        0 <= i < entries.len() - 1 && entries.drop_last()[i].task == last.task;
                    assert(entries[i].task == entries[entries.len() - 1].task);
                }
            }
            assert(!contains_task(rest, last.task)) by {
                if contains_task(rest, last.task) {
                    assert(contains_task(entries.drop_last(), last.task));
                }
            }
            assert(distinct_tasks(rest.push(last))) by {
                assert forall|i: int, j: int|
                    0 <= i < j < rest.push(last).len() implies rest.push(last)[i].task
                    != rest.push(last)[j].task by {
                    if j < rest.len() {
                    } else {
                        if rest.push(last)[i].task == last.task {
                            assert(rest[i].task == last.task);
                            assert(contains_task(rest, last.task));
                        }
                    }
                }
            }
            assert(!contains_task(rest.push(last), t)) by {
                if contains_task(rest.push(last), t) {
                    let k = choose|k: int|
                        0 <= k < rest.push(last).len() && rest.push(last)[k].task == t;
                    if k < rest.len() {
                        assert(contains_task(rest, t));
                    }
                }
            }
            assert forall|u: usize| u != t implies (contains_task(without_task(entries, t), u)
                <==> contains_task(entries, u)) by {
                if contains_task(entries, u) {
                    let i = choose|i: int| 0 <= i < entries.len() && entries[i].task == u;
                    if i < entries.len() - 1 {
                        assert(entries.drop_last()[i].task == u);
                        assert(contains_task(entries.drop_last(), u));
                        let k = choose|k: int| 0 <= k < rest.len() && rest[k].task == u;
                        assert(without_task(entries, t)[k].task == u);
                    } else {
                        assert(without_task(entries, t)[rest.len() as int].task == u);
                    }
                }
                if contains_task(without_task(entries, t), u) {
                    let k = choose|k: int|
                        0 <= k < without_task(entries, t).len() && without_task(entries, t)[k].task
                            == u;
                    if k < rest.len() {
                        assert(contains_task(entries.drop_last(), u));
                        let i = choose|i: int|
                            0 <= i < entries.len() - 1 && entries.drop_last()[i].task == u;
                        assert(entries[i].task == u);
                    }
                }
            }
        } else {
            assert forall|u: usize| u != t implies (contains_task(without_task(entries, t), u)
                <==> contains_task(entries, u)) by {
                if contains_task(entries, u) {
                    let i = choose|i: int| 0 <= i < entries.len() && entries[i].task == u;
                    assert(i < entries.len() - 1);
                    assert(entries.drop_last()[i].task == u);
                    assert(contains_task(entries.drop_last(), u));
                }
                if contains_task(rest, u) {
                    assert(contains_task(entries.drop_last(), u));
                    let i = choose|i: int|
                        0 <= i < entries.len() - 1 && entries.drop_last()[i].task == u;
                    assert(entries[i].task == u);
                }
            }
        }
    }
}

} // verus!
