//! End-to-end runs of the assembled system driving the two task bodies,
//! with a simulated clock and button script.

use coop_substrate::scheduler::TaskState;
use coop_substrate::system::System;
use coop_substrate::tasks::BlinkTask;
use coop_substrate::tasks::Lamp;
use coop_substrate::tasks::LampNote;
use coop_substrate::tasks::LampTask;

const BLINK_TASK: usize = 0;
const LAMP_TASK: usize = 1;

/// Drive the system for `until` ticks; the button is low on the ticks for
/// which `low` says so. Returns (lamp transition log, press reports).
fn run(until: u32, low: impl Fn(u32) -> bool) -> (Vec<(u32, Lamp, bool)>, Vec<(u32, u32)>) {
    let mut sys = System::new(2, LAMP_TASK);
    let mut blink = BlinkTask::new();
    let mut lamp = LampTask::new();
    let mut blink_log: Vec<(u32, Lamp, bool)> = Vec::new();
    let mut presses: Vec<(u32, u32)> = Vec::new();
    let mut now: u32 = 0;
    while now < until {
        while let Some(task) = sys.next_task() {
            assert_eq!(sys.state_of(task), TaskState::Running);
            match task {
                BLINK_TASK => {
                    let cmd = blink.step();
                    blink_log.push((now, cmd.lamp, cmd.level_high));
                    sys.sleep(BLINK_TASK, now, cmd.hold_ticks);
                }
                LAMP_TASK => {
                    sys.task_acquire();
                    let line_low = sys.poll_resource();
                    let _ = sys.claim_event();
                    sys.task_release(now);
                    let act = lamp.step(line_low);
                    if let LampNote::PressEnded { polls } = act.note {
                        presses.push((now, polls));
                    }
                    sys.sleep(LAMP_TASK, now, act.hold_ticks);
                }
                other => panic!("unknown task {other}"),
            }
        }
        now += 1;
        let was_low = low(now.wrapping_sub(1));
        let is_low = low(now);
        if is_low && !was_low {
            sys.signal_edge(now);
        } else if was_low && !is_low {
            sys.sync_level(false);
        }
        sys.on_timer(now);
    }
    (blink_log, presses)
}

#[test]
fn blinker_runs_on_schedule() {
    let (blink_log, presses) = run(2_001, |_| false);
    // Steps at ticks 0, 500, 1000, 1500, 2000: one full cycle and a wrap.
    assert_eq!(blink_log.len(), 5);
    assert_eq!(blink_log[0], (0, Lamp::Red, true));
    assert_eq!(blink_log[1], (500, Lamp::Red, false));
    assert_eq!(blink_log[2], (1000, Lamp::Orange, true));
    assert_eq!(blink_log[3], (1500, Lamp::Orange, false));
    assert_eq!(blink_log[4], (2000, Lamp::Red, true));
    assert_eq!(presses, Vec::<(u32, u32)>::new());
}

#[test]
fn press_length_is_polled_exactly() {
    // The line is low on ticks 100..=104: five polls see it low, and the
    // poll at tick 105 reports the press of length five.
    let (_, presses) = run(200, |t| (100..105).contains(&t));
    assert_eq!(presses, vec![(105, 5)]);
}

#[test]
fn two_presses_are_reported_separately() {
    let low = |t: u32| (50..52).contains(&t) || (80..83).contains(&t);
    let (_, presses) = run(120, low);
    assert_eq!(presses, vec![(52, 2), (83, 3)]);
}
