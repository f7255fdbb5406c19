//! The task bodies, written as explicit state machines.
//!
//! A cooperative task cannot be a blocking loop: it must suspend at every
//! iteration. Each task here is a resumable computation reduced to a step
//! function from its state (and its inputs) to the action the environment
//! must perform and the time to sleep before the next resumption. The
//! environment — the scheduler run loop — performs the action, suspends the
//! task for the returned hold time, and feeds the next step.
//!
//! Two tasks are provided: a two-lamp alternating blinker, and a lamp that
//! follows a debounced push-button, counting how many consecutive polls saw
//! the line low.

use vstd::prelude::*;

verus! {

/// Ticks a blinker phase lasts before the next transition.
pub const BLINK_HOLD_TICKS: u32 = 500;

/// Ticks between two polls of the button line.
pub const POLL_HOLD_TICKS: u32 = 1;

/// The two lamps the blinker drives.
#[derive(Clone, Copy, PartialEq, Eq, Structural, Debug)]
pub enum Lamp {
    /// The first lamp of the alternating pair.
    Red,
    /// The second lamp of the alternating pair.
    Orange,
}

/// Where the blinker stands in its four-phase cycle; the name is the phase
/// about to be entered.
#[derive(Clone, Copy, PartialEq, Eq, Structural, Debug)]
pub enum BlinkPhase {
    /// Light the red lamp.
    RedOn,
    /// Extinguish the red lamp.
    RedOff,
    /// Light the orange lamp.
    OrangeOn,
    /// Extinguish the orange lamp.
    OrangeOff,
}

/// One output of the blinker: drive `lamp` to `level_high`, then sleep
/// `hold_ticks` before the next step.
#[derive(Clone, Copy, PartialEq, Eq, Structural, Debug)]
pub struct LampCommand {
    /// Which lamp to drive.
    pub lamp: Lamp,
    /// The level to set: true lights the lamp.
    pub level_high: bool,
    /// How long to suspend before resuming the task.
    pub hold_ticks: u32,
}

/// The phase that follows `p` in the blink cycle.
pub open spec fn spec_blink_next(p: BlinkPhase) -> BlinkPhase {
    match p {
        BlinkPhase::RedOn => BlinkPhase::RedOff,
        BlinkPhase::RedOff => BlinkPhase::OrangeOn,
        BlinkPhase::OrangeOn => BlinkPhase::OrangeOff,
        BlinkPhase::OrangeOff => BlinkPhase::RedOn,
    }
}

/// The command phase `p` emits.
pub open spec fn spec_blink_command(p: BlinkPhase) -> LampCommand {
    match p {
        BlinkPhase::RedOn => LampCommand {
            lamp: Lamp::Red,
            level_high: true,
            hold_ticks: BLINK_HOLD_TICKS,
        },
        BlinkPhase::RedOff => LampCommand {
            lamp: Lamp::Red,
            level_high: false,
            hold_ticks: BLINK_HOLD_TICKS,
        },
        BlinkPhase::OrangeOn => LampCommand {
            lamp: Lamp::Orange,
            level_high: true,
            hold_ticks: BLINK_HOLD_TICKS,
        },
        BlinkPhase::OrangeOff => LampCommand {
            lamp: Lamp::Orange,
            level_high: false,
            hold_ticks: BLINK_HOLD_TICKS,
        },
    }
}

/// The alternating blinker: red on, red off, orange on, orange off, each
/// phase held for [`BLINK_HOLD_TICKS`], forever.
pub struct BlinkTask {
    phase: BlinkPhase,
}

impl BlinkTask {
    /// The phase about to be executed.
    pub closed spec fn phase(&self) -> BlinkPhase {
        self.phase
    }

    /// A blinker at the start of its cycle.
    pub fn new() -> (t: BlinkTask)
        ensures
            t.phase() == BlinkPhase::RedOn,
    {
        BlinkTask { phase: BlinkPhase::RedOn }
    }

    /// Run the task up to its next suspension: emit the command of the
    /// current phase and advance the cycle.
    pub fn step(&mut self) -> (cmd: LampCommand)
        ensures
            cmd == spec_blink_command(old(self).phase()),
            final(self).phase() == spec_blink_next(old(self).phase()),
    {
        let cmd = match self.phase {
            BlinkPhase::RedOn => LampCommand {
                lamp: Lamp::Red,
                level_high: true,
                hold_ticks: BLINK_HOLD_TICKS,
            },
            BlinkPhase::RedOff => LampCommand {
                lamp: Lamp::Red,
                level_high: false,
                hold_ticks: BLINK_HOLD_TICKS,
            },
            BlinkPhase::OrangeOn => LampCommand {
                lamp: Lamp::Orange,
                level_high: true,
                hold_ticks: BLINK_HOLD_TICKS,
            },
            BlinkPhase::OrangeOff => LampCommand {
                lamp: Lamp::Orange,
                level_high: false,
                hold_ticks: BLINK_HOLD_TICKS,
            },
        };
        self.phase = match self.phase {
            BlinkPhase::RedOn => BlinkPhase::RedOff,
            BlinkPhase::RedOff => BlinkPhase::OrangeOn,
            BlinkPhase::OrangeOn => BlinkPhase::OrangeOff,
            BlinkPhase::OrangeOff => BlinkPhase::RedOn,
        };
        cmd
    }
}

/// Law: the blink cycle is periodic with period four — four steps return
/// the task to the phase it started from, whatever that phase was.
pub proof fn lemma_blink_period(p: BlinkPhase)
    ensures
        spec_blink_next(spec_blink_next(spec_blink_next(spec_blink_next(p)))) == p,
{
}

/// What the button-lamp task reports at one poll, besides driving its
/// lamp.
#[derive(Clone, Copy, PartialEq, Eq, Structural, Debug)]
pub enum LampNote {
    /// Nothing to report.
    Quiet,
    /// The line just went low: a press begins.
    PressStarted,
    /// The line returned high after `polls` consecutive low polls.
    PressEnded { polls: u32 },
}

/// One output of the button-lamp task: drive the green lamp to
/// `green_high`, report `note`, then sleep `hold_ticks`.
#[derive(Clone, Copy, PartialEq, Eq, Structural, Debug)]
pub struct LampAction {
    /// The level for the green lamp: lit exactly while the line is low.
    pub green_high: bool,
    /// What this poll observed.
    pub note: LampNote,
    /// How long to suspend before the next poll.
    pub hold_ticks: u32,
}

/// The poll counter after observing the line at level `low`, starting
/// from `count` consecutive low polls (saturating).
pub open spec fn spec_lamp_count(count: u32, low: bool) -> u32 {
    if low {
        if count == u32::MAX {
            count
        } else {
            (count + 1) as u32
        }
    } else {
        0
    }
}

/// What a poll reports, given the previous count and the observed level.
pub open spec fn spec_lamp_note(count: u32, low: bool) -> LampNote {
    if low {
        if count == 0 {
            LampNote::PressStarted
        } else {
            LampNote::Quiet
        }
    } else {
        if count == 0 {
            LampNote::Quiet
        } else {
            LampNote::PressEnded { polls: count }
        }
    }
}

/// The button-follower: polls the line every [`POLL_HOLD_TICKS`], lights
/// the green lamp while the line is low, and counts consecutive low polls
/// so that the press length is reported when the line returns high.
pub struct LampTask {
    count: u32,
}

impl LampTask {
    /// How many consecutive polls have seen the line low.
    pub closed spec fn count(&self) -> u32 {
        self.count
    }

    /// A follower that has not seen the line low.
    pub fn new() -> (t: LampTask)
        ensures
            t.count() == 0,
    {
        LampTask { count: 0 }
    }

    /// Run the task up to its next suspension: one poll of the line.
    pub fn step(&mut self, line_low: bool) -> (act: LampAction)
        ensures
            act.green_high == line_low,
            act.hold_ticks == POLL_HOLD_TICKS,
            act.note == spec_lamp_note(old(self).count(), line_low),
            final(self).count() == spec_lamp_count(old(self).count(), line_low),
    {
        let note = if line_low {
            if self.count == 0 {
                LampNote::PressStarted
            } else {
                LampNote::Quiet
            }
        } else {
            if self.count == 0 {
                LampNote::Quiet
            } else {
                LampNote::PressEnded { polls: self.count }
            }
        };
        if line_low {
            if self.count < u32::MAX {
                self.count = self.count + 1;
            }
        } else {
            self.count = 0;
        }
        LampAction { green_high: line_low, note, hold_ticks: POLL_HOLD_TICKS }
    }
}

/// The count after `polls` consecutive polls that all saw the line low,
/// starting from `count`.
pub open spec fn spec_count_after_low_polls(count: u32, polls: nat) -> u32
    decreases polls,
{
    if polls == 0 {
        count
    } else {
        spec_lamp_count(spec_count_after_low_polls(count, (polls - 1) as nat), true)
    }
}

/// Law: the reported press length is exact. After a press that lasts
/// `polls` consecutive low polls (any number the counter can hold),
/// starting from an idle follower, the poll that sees the line high again
/// reports exactly `polls`.
pub proof fn lemma_press_length_exact(polls: nat)
    requires
        polls <= u32::MAX,
    ensures
        spec_count_after_low_polls(0, polls) == polls,
        polls > 0 ==> spec_lamp_note(spec_count_after_low_polls(0, polls), false)
            == (LampNote::PressEnded { polls: polls as u32 }),
    decreases polls,
{
    if polls > 0 {
        lemma_press_length_exact((polls - 1) as nat);
    }
}

} // verus!
