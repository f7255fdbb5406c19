use coop_substrate::tasks::BlinkTask;
use coop_substrate::tasks::Lamp;
use coop_substrate::tasks::LampNote;
use coop_substrate::tasks::LampTask;
use coop_substrate::tasks::BLINK_HOLD_TICKS;
use coop_substrate::tasks::POLL_HOLD_TICKS;

#[test]
fn blink_cycle_alternates_the_two_lamps() {
    let mut blink = BlinkTask::new();
    let c1 = blink.step();
    assert_eq!((c1.lamp, c1.level_high, c1.hold_ticks), (Lamp::Red, true, BLINK_HOLD_TICKS));
    let c2 = blink.step();
    assert_eq!((c2.lamp, c2.level_high, c2.hold_ticks), (Lamp::Red, false, BLINK_HOLD_TICKS));
    let c3 = blink.step();
    assert_eq!((c3.lamp, c3.level_high, c3.hold_ticks), (Lamp::Orange, true, BLINK_HOLD_TICKS));
    let c4 = blink.step();
    assert_eq!((c4.lamp, c4.level_high, c4.hold_ticks), (Lamp::Orange, false, BLINK_HOLD_TICKS));
    // Period four: the fifth command repeats the first.
    let c5 = blink.step();
    assert_eq!(c5, c1);
}

#[test]
fn debounce_count_matches_the_poll_count_exactly() {
    let polls: u32 = 4;
    let mut lamp = LampTask::new();
    for i in 0..polls {
        let act = lamp.step(true);
        assert!(act.green_high);
        assert_eq!(act.hold_ticks, POLL_HOLD_TICKS);
        if i == 0 {
            assert_eq!(act.note, LampNote::PressStarted);
        } else {
            assert_eq!(act.note, LampNote::Quiet);
        }
    }
    // The line returns high within N polls: the press terminates and the
    // recorded count is exactly N.
    let end = lamp.step(false);
    assert!(!end.green_high);
    assert_eq!(end.note, LampNote::PressEnded { polls });
    // The follower is idle again.
    let idle = lamp.step(false);
    assert_eq!(idle.note, LampNote::Quiet);
    assert!(!idle.green_high);
}

#[test]
fn idle_line_reports_nothing() {
    let mut lamp = LampTask::new();
    for _ in 0..10 {
        let act = lamp.step(false);
        assert_eq!(act.note, LampNote::Quiet);
        assert!(!act.green_high);
    }
}

#[test]
fn one_poll_press_is_counted_as_one() {
    let mut lamp = LampTask::new();
    let start = lamp.step(true);
    assert_eq!(start.note, LampNote::PressStarted);
    let end = lamp.step(false);
    assert_eq!(end.note, LampNote::PressEnded { polls: 1 });
}
