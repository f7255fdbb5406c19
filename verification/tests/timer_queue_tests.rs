use coop_substrate::timer_queue::MonotonicTimerQueue;
use coop_substrate::ticks::deadline_reached;
use coop_substrate::ticks::deadline_after;

#[test]
fn tick_returns_exactly_the_due_tasks() {
    let mut q = MonotonicTimerQueue::new();
    q.sleep_until(0, 10);
    q.sleep_until(1, 20);
    q.sleep_until(2, 15);
    // Exactly the tasks with deadline <= 15, in registration order.
    assert_eq!(q.tick(15), vec![0, 2]);
    assert!(q.contains(1));
    assert!(!q.contains(0));
    assert!(!q.contains(2));
    // Nothing is due before the remaining deadline.
    assert_eq!(q.tick(19), Vec::<usize>::new());
    assert_eq!(q.tick(20), vec![1]);
    assert_eq!(q.len(), 0);
}

#[test]
fn equal_deadlines_wake_in_registration_order() {
    let mut q = MonotonicTimerQueue::new();
    q.sleep_until(7, 100);
    q.sleep_until(3, 100);
    q.sleep_until(5, 100);
    assert_eq!(q.tick(100), vec![7, 3, 5]);
}

#[test]
fn wake_fires_exactly_once() {
    let mut q = MonotonicTimerQueue::new();
    q.sleep_until(0, 100);
    assert_eq!(q.tick(100), vec![0]);
    // Ticking again does not re-fire the consumed entry.
    assert_eq!(q.tick(100), Vec::<usize>::new());
    assert_eq!(q.tick(200), Vec::<usize>::new());
    // The task may register again once its entry was consumed.
    q.sleep_until(0, 300);
    assert_eq!(q.tick(300), vec![0]);
}

#[test]
fn tick_across_counter_wraparound() {
    let mut q = MonotonicTimerQueue::new();
    // Deadline just before the counter rolls over.
    q.sleep_until(0, u32::MAX - 1);
    assert_eq!(q.tick(u32::MAX - 2), Vec::<usize>::new());
    // The counter wrapped past zero: the deadline lies a few ticks in the
    // past and must still fire.
    assert_eq!(q.tick(5), vec![0]);

    // Deadline just after the rollover, registered before it.
    q.sleep_until(1, 3);
    assert_eq!(q.tick(u32::MAX), Vec::<usize>::new());
    assert_eq!(q.tick(3), vec![1]);
}

#[test]
fn remove_task_cancels_only_that_entry() {
    let mut q = MonotonicTimerQueue::new();
    q.sleep_until(0, 10);
    q.sleep_until(1, 10);
    q.remove_task(0);
    assert!(!q.contains(0));
    assert!(q.contains(1));
    assert_eq!(q.tick(10), vec![1]);
}

#[test]
fn wrap_safe_comparison_helpers() {
    // At the deadline itself.
    assert!(deadline_reached(100, 100));
    // One tick short.
    assert!(!deadline_reached(100, 99));
    // A deadline in the recent past stays reached.
    assert!(deadline_reached(100, 200));
    // A deadline in the future (within half the counter range) is not
    // reached.
    assert!(!deadline_reached(0x7000_0000, 0));
    // Wrap-safe absolute deadlines.
    assert_eq!(deadline_after(u32::MAX, 1), 0);
    assert_eq!(deadline_after(u32::MAX - 1, 5), 3);
    assert_eq!(deadline_after(10, 20), 30);
    // A wrapped deadline is reached once the counter passes it.
    let d = deadline_after(u32::MAX - 1, 5);
    assert!(!deadline_reached(d, u32::MAX));
    assert!(deadline_reached(d, 3));
    assert!(deadline_reached(d, 4));
}
