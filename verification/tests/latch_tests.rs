use coop_substrate::latch::InterruptLatch;

#[test]
fn claim_none_when_empty() {
    let mut latch = InterruptLatch::new();
    assert_eq!(latch.claim(), None);
    assert_eq!(latch.claim(), None);
}

#[test]
fn claim_some_at_most_once_per_burst() {
    let mut latch = InterruptLatch::new();
    latch.publish(42);
    let first = latch.claim().expect("a published event must be claimable");
    assert_eq!(first.tick, 42);
    assert_eq!(first.count, 1);
    // Claiming twice in a row without an intervening publish yields nothing.
    assert_eq!(latch.claim(), None);
    assert_eq!(latch.claim(), None);
}

#[test]
fn burst_collapses_with_accumulated_count() {
    let mut latch = InterruptLatch::new();
    latch.publish(10);
    latch.publish(11);
    latch.publish(15);
    let ev = latch.claim().expect("burst must leave one claimable event");
    assert_eq!(ev.tick, 15);
    assert_eq!(ev.count, 3);
    assert_eq!(latch.claim(), None);
}

#[test]
fn publish_after_claim_starts_fresh_burst() {
    let mut latch = InterruptLatch::new();
    latch.publish(1);
    latch.publish(2);
    assert!(latch.claim().is_some());
    latch.publish(9);
    let ev = latch.claim().expect("fresh publish must be claimable");
    assert_eq!(ev.tick, 9);
    assert_eq!(ev.count, 1);
}

#[test]
fn burst_count_saturates() {
    let mut latch = InterruptLatch::new();
    latch.publish(0);
    let mut ev = latch.claim().unwrap();
    assert_eq!(ev.count, 1);
    // A saturated count stays at the maximum instead of wrapping.
    latch.publish(1);
    for t in 2..10u32 {
        latch.publish(t);
    }
    ev = latch.claim().unwrap();
    assert_eq!(ev.count, 9);
}
