use coop_substrate::runner::BoardAction;
use coop_substrate::runner::Runner;
use coop_substrate::tasks::BLINK_HOLD_TICKS;
use coop_substrate::tasks::Lamp;
use coop_substrate::tasks::LampNote;

#[test]
fn first_round_resumes_both_tasks_in_spawn_order() {
    let mut runner = Runner::new();
    let acts = runner.round(0);
    assert_eq!(acts.len(), 2);
    match acts[0] {
        BoardAction::Drive(cmd) => {
            assert_eq!(cmd.lamp, Lamp::Red);
            assert!(cmd.level_high);
            assert_eq!(cmd.hold_ticks, BLINK_HOLD_TICKS);
        }
        BoardAction::Green(_) => panic!("the blinker was spawned first"),
    }
    match acts[1] {
        BoardAction::Green(act) => {
            assert!(!act.green_high);
            assert_eq!(act.note, LampNote::Quiet);
        }
        BoardAction::Drive(_) => panic!("the button-follower was spawned second"),
    }
    // Every task is suspended now: a round with nothing ready does nothing.
    assert_eq!(runner.round(0).len(), 0);
}

#[test]
fn rounds_follow_the_timer() {
    let mut runner = Runner::new();
    assert_eq!(runner.round(0).len(), 2);
    // At the next tick only the poller (1-tick hold) is due.
    runner.system().on_timer(1);
    let acts = runner.round(1);
    assert_eq!(acts.len(), 1);
    assert!(matches!(acts[0], BoardAction::Green(_)));
    // The blinker reappears once its 500-tick hold elapses.
    let mut now: u32 = 1;
    let mut saw_blink = false;
    while now < 500 {
        now += 1;
        runner.system().on_timer(now);
        for act in runner.round(now) {
            if let BoardAction::Drive(cmd) = act {
                assert_eq!(now, 500);
                assert_eq!(cmd.lamp, Lamp::Red);
                assert!(!cmd.level_high);
                saw_blink = true;
            }
        }
    }
    assert!(saw_blink);
}

#[test]
fn edge_wakes_the_follower_ahead_of_its_deadline() {
    let mut runner = Runner::new();
    assert_eq!(runner.round(0).len(), 2);
    // Both tasks wait; the edge wakes the follower at once and pulls the
    // line low, so its next poll sees the press.
    let delivered = runner.system().signal_edge(0);
    assert!(delivered);
    let acts = runner.round(0);
    assert_eq!(acts.len(), 1);
    match acts[0] {
        BoardAction::Green(act) => {
            assert!(act.green_high);
            assert_eq!(act.note, LampNote::PressStarted);
        }
        BoardAction::Drive(_) => panic!("only the follower was woken"),
    }
}
