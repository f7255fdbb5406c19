use coop_substrate::scheduler::TaskState;
use coop_substrate::system::System;

#[test]
fn edge_during_critical_section_is_deferred() {
    // Task 1 depends on the edge interrupt. Make it wait, then enter a
    // task-side critical section and raise the edge in the middle of it.
    let mut sys = System::new(2, 1);
    assert_eq!(sys.next_task(), Some(0));
    sys.sleep(0, 0, 1000);
    assert_eq!(sys.next_task(), Some(1));
    sys.sleep(1, 0, 1000);

    sys.task_acquire();
    assert!(sys.task_holds());

    // The interrupt fires mid-critical-section: it must not be handled yet.
    let delivered = sys.signal_edge(5);
    assert!(!delivered);
    assert!(sys.edge_pending());
    assert_eq!(sys.claim_event(), None);
    assert_eq!(sys.state_of(1), TaskState::Waiting { deadline: 1000 });

    // Releasing the lock unmasks the source; the deferred handler runs
    // now, strictly after the critical section - never interleaved.
    let delivered_on_release = sys.task_release(7);
    assert!(delivered_on_release);
    assert!(!sys.edge_pending());
    assert_eq!(sys.state_of(1), TaskState::Ready);
    sys.task_acquire();
    let ev = sys.claim_event().expect("the deferred edge must be latched");
    assert_eq!(ev.tick, 7);
    assert_eq!(ev.count, 1);
    sys.task_release(8);
}

#[test]
fn unmasked_edge_is_delivered_immediately() {
    let mut sys = System::new(2, 1);
    assert_eq!(sys.next_task(), Some(0));
    sys.sleep(0, 0, 1000);
    assert_eq!(sys.next_task(), Some(1));
    sys.sleep(1, 0, 1000);

    let delivered = sys.signal_edge(3);
    assert!(delivered);
    assert!(!sys.edge_pending());
    // The watched task was woken immediately, bypassing the timer queue;
    // the other task still waits.
    assert_eq!(sys.state_of(1), TaskState::Ready);
    assert_eq!(sys.state_of(0), TaskState::Waiting { deadline: 1000 });
    // The consumed wake entry of task 1 must not fire at its deadline.
    assert_eq!(sys.on_timer(1000), vec![0]);
}

#[test]
fn edge_wakes_only_waiting_tasks() {
    let mut sys = System::new(2, 1);
    // Task 1 is Ready at boot: the edge publishes but changes no state.
    let delivered = sys.signal_edge(1);
    assert!(delivered);
    assert_eq!(sys.state_of(1), TaskState::Ready);
    sys.task_acquire();
    let ev = sys.claim_event().expect("the edge must be latched");
    assert_eq!(ev.tick, 1);
    sys.task_release(2);
}

#[test]
fn resource_is_observed_under_the_lock() {
    let mut sys = System::new(1, 0);
    sys.sync_level(false);
    sys.task_acquire();
    assert!(!sys.poll_resource());
    sys.task_release(1);
    // The edge pulls the line low; the next observation sees it.
    sys.signal_edge(2);
    sys.task_acquire();
    assert!(sys.poll_resource());
    sys.task_release(3);
    sys.sync_level(false);
    sys.task_acquire();
    assert!(!sys.poll_resource());
    sys.task_release(4);
}

#[test]
fn observe_is_one_whole_critical_section() {
    let mut sys = System::new(1, 0);
    // Nothing latched, line high, nothing deferred.
    assert_eq!(sys.observe(1), (false, None, false));
    // An edge delivered outside the section is claimable by the next one.
    sys.signal_edge(2);
    let (low, ev, deferred) = sys.observe(3);
    assert!(low);
    assert_eq!(ev.map(|e| (e.tick, e.count)), Some((2, 1)));
    assert!(!deferred);
    // The lock is free again after every observation.
    assert!(sys.lock_released());
}

#[test]
fn deferred_edges_collapse_into_one_burst() {
    let mut sys = System::new(1, 0);
    sys.task_acquire();
    assert!(!sys.signal_edge(10));
    assert!(!sys.signal_edge(11));
    assert!(!sys.signal_edge(12));
    // Still one pending flag; delivery on release publishes one event.
    assert!(sys.task_release(13));
    sys.task_acquire();
    let ev = sys.claim_event().expect("the burst must be latched");
    assert_eq!(ev.count, 1);
    assert_eq!(ev.tick, 13);
    assert_eq!(sys.claim_event(), None);
    sys.task_release(14);
}
