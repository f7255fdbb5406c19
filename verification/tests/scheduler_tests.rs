use coop_substrate::scheduler::TaskScheduler;
use coop_substrate::scheduler::TaskState;

#[test]
fn boot_order_is_fifo_by_identity() {
    let mut s = TaskScheduler::new(3);
    assert_eq!(s.task_count(), 3);
    assert_eq!(s.state_of(0), TaskState::Ready);
    assert_eq!(s.state_of(1), TaskState::Ready);
    assert_eq!(s.state_of(2), TaskState::Ready);
    assert_eq!(s.next_task(), Some(0));
    assert_eq!(s.state_of(0), TaskState::Running);
}

#[test]
fn round_trip_wait_then_ready_exactly_once() {
    let mut s = TaskScheduler::new(1);
    assert_eq!(s.next_task(), Some(0));
    s.sleep(0, 0, 10);
    assert_eq!(s.state_of(0), TaskState::Waiting { deadline: 10 });
    // Not due yet.
    assert_eq!(s.on_tick(9), Vec::<usize>::new());
    assert_eq!(s.state_of(0), TaskState::Waiting { deadline: 10 });
    // Due: back to Ready, exactly once.
    assert_eq!(s.on_tick(10), vec![0]);
    assert_eq!(s.state_of(0), TaskState::Ready);
    // Ticking again does not re-fire the consumed wake.
    assert_eq!(s.on_tick(11), Vec::<usize>::new());
    assert_eq!(s.on_tick(10), Vec::<usize>::new());
    assert_eq!(s.next_task(), Some(0));
}

#[test]
fn scripted_two_task_schedule_is_deterministic() {
    // Two tasks started at tick 0: A (task 0) waits 500 ticks, B (task 1)
    // waits 700. A resumes at 500, B at 700.
    let mut s = TaskScheduler::new(2);
    assert_eq!(s.next_task(), Some(0));
    s.sleep(0, 0, 500);
    assert_eq!(s.next_task(), Some(1));
    s.sleep(1, 0, 700);
    assert_eq!(s.next_task(), None);

    let mut resume_log: Vec<(u32, usize)> = Vec::new();
    let mut now: u32 = 0;
    while now < 800 {
        now += 1;
        for woken in s.on_tick(now) {
            resume_log.push((now, woken));
        }
        while let Some(t) = s.next_task() {
            // Each resumed task immediately suspends again, far out.
            s.sleep(t, now, 10_000);
        }
    }
    assert_eq!(resume_log, vec![(500, 0), (700, 1)]);
}

#[test]
fn simultaneous_deadlines_resume_in_registration_order() {
    let mut s = TaskScheduler::new(2);
    assert_eq!(s.next_task(), Some(0));
    s.sleep(0, 0, 500);
    assert_eq!(s.next_task(), Some(1));
    s.sleep(1, 0, 500);
    // Both due at the same tick: FIFO by registration, deterministically.
    assert_eq!(s.on_tick(500), vec![0, 1]);
    assert_eq!(s.next_task(), Some(0));
    s.complete(0);
    assert_eq!(s.next_task(), Some(1));
    s.complete(1);
}

#[test]
fn wake_bypasses_the_timer_queue() {
    let mut s = TaskScheduler::new(1);
    assert_eq!(s.next_task(), Some(0));
    s.sleep(0, 0, 1000);
    s.wake(0);
    assert_eq!(s.state_of(0), TaskState::Ready);
    // The consumed wake entry must not fire later.
    assert_eq!(s.on_tick(1000), Vec::<usize>::new());
    assert_eq!(s.next_task(), Some(0));
}

#[test]
fn wake_leaves_non_waiting_tasks_alone() {
    let mut s = TaskScheduler::new(2);
    s.wake(0);
    assert_eq!(s.state_of(0), TaskState::Ready);
    assert_eq!(s.next_task(), Some(0));
    s.complete(0);
    s.wake(0);
    assert_eq!(s.state_of(0), TaskState::Done);
}

#[test]
fn done_tasks_are_never_scheduled_again() {
    let mut s = TaskScheduler::new(2);
    assert_eq!(s.next_task(), Some(0));
    s.complete(0);
    assert_eq!(s.state_of(0), TaskState::Done);
    assert_eq!(s.next_task(), Some(1));
    s.complete(1);
    assert_eq!(s.next_task(), None);
}

#[test]
fn empty_task_set_schedules_nothing() {
    let mut s = TaskScheduler::new(0);
    assert_eq!(s.task_count(), 0);
    assert_eq!(s.next_task(), None);
    assert_eq!(s.on_tick(100), Vec::<usize>::new());
}

#[test]
fn tick_on_empty_queue_wakes_nothing() {
    let mut s = TaskScheduler::new(2);
    assert_eq!(s.on_tick(0), Vec::<usize>::new());
    assert_eq!(s.on_tick(u32::MAX), Vec::<usize>::new());
}

#[test]
fn wait_across_counter_rollover() {
    let mut s = TaskScheduler::new(1);
    assert_eq!(s.next_task(), Some(0));
    // Suspend shortly before the counter wraps; the deadline lies past 0.
    s.sleep(0, u32::MAX - 10, 20);
    assert_eq!(s.state_of(0), TaskState::Waiting { deadline: 9 });
    assert_eq!(s.on_tick(u32::MAX), Vec::<usize>::new());
    assert_eq!(s.on_tick(8), Vec::<usize>::new());
    assert_eq!(s.on_tick(9), vec![0]);
}
