//! Wrap-safe tick arithmetic.
//!
//! Deadlines are absolute values of a monotonic hardware counter that rolls
//! over at `u32::MAX`. A deadline counts as reached when the counter, read
//! modulo 2^32, lies at most half the counter range ahead of it: the usual
//! signed-difference comparison, so a rollover neither fires a wake early
//! nor loses it.

use vstd::prelude::*;

verus! {

/// Forward distance, in ticks, from `from` to `to` on the rolling counter.
pub open spec fn tick_distance(from: u32, to: u32) -> int {
    if to >= from {
        to - from
    } else {
        to + 0x1_0000_0000 - from
    }
}

/// `deadline` counts as reached at counter value `now` when `now` lies no
/// further than half the counter range past `deadline`.
pub open spec fn spec_reached(deadline: u32, now: u32) -> bool {
    tick_distance(deadline, now) < 0x8000_0000
}

/// Absolute deadline `delta` ticks after counter value `now`, modulo the
/// counter range.
pub open spec fn spec_wrap_add(now: u32, delta: u32) -> u32 {
    ((now + delta) % 0x1_0000_0000) as u32
}

/// Wrap-safe deadline test: signed-difference comparison on the rolling
/// counter.
pub fn deadline_reached(deadline: u32, now: u32) -> (r: bool)
    ensures
        r == spec_reached(deadline, now),
{
    let diff: u32 = if now >= deadline {
        now - deadline
    } else {
        now + (0xffff_ffffu32 - deadline) + 1
    };
    diff < 0x8000_0000
}

/// Law: waits are wrap-safe. A wait of `delta` ticks registered at counter
/// value `now` is reached after `elapsed` ticks exactly when `elapsed`
/// has grown to `delta` — neither early nor missed — for any wait and any
/// elapsed time below half the counter range, wherever the counter stands,
/// including across its rollover.
pub proof fn lemma_wrap_safe_wait(now: u32, delta: u32, elapsed: u32)
    requires
        delta < 0x8000_0000,
        elapsed < 0x8000_0000,
    ensures
        spec_reached(spec_wrap_add(now, delta), spec_wrap_add(now, elapsed)) == (elapsed >= delta),
{
    let span: int = 0x1_0000_0000;
    let d = spec_wrap_add(now, delta);
    let e = spec_wrap_add(now, elapsed);
    assert(d == if now + delta < span {
        now + delta
    } else {
        now + delta - span
    });
    assert(e == if now + elapsed < span {
        now + elapsed
    } else {
        now + elapsed - span
    });
    if elapsed >= delta {
        assert(tick_distance(d, e) == elapsed - delta);
    } else {
        assert(tick_distance(d, e) == span - (delta - elapsed));
    }
}

/// Law: shorter waits fire first. Of two waits registered at the same
/// counter value, at any instant where the shorter has elapsed and the
/// longer has not, only the shorter deadline is reached — so a timer queue
/// driven tick by tick resumes the task with the shorter wait strictly
/// before the other, wherever the counter stands.
pub proof fn lemma_shorter_wait_fires_first(now: u32, shorter: u32, longer: u32, elapsed: u32)
    requires
        shorter <= elapsed < longer,
        longer < 0x8000_0000,
    ensures
        spec_reached(spec_wrap_add(now, shorter), spec_wrap_add(now, elapsed)),
        !spec_reached(spec_wrap_add(now, longer), spec_wrap_add(now, elapsed)),
{
    lemma_wrap_safe_wait(now, shorter, elapsed);
    lemma_wrap_safe_wait(now, longer, elapsed);
}

/// Absolute deadline `delta` ticks from `now`, rolling over at the end of
/// the counter range.
pub fn deadline_after(now: u32, delta: u32) -> (d: u32)
    ensures
        d == spec_wrap_add(now, delta),
{
    if delta <= u32::MAX - now {
        now + delta
    } else {
        delta - (u32::MAX - now) - 1
    }
}

} // verus!
