//! An interrupt-driven cooperative task substrate for a single-core
//! system, verified.
//!
//! A fixed set of tasks runs under a non-preemptive FIFO scheduler
//! ([`scheduler`]); a suspended task registers an absolute wake deadline
//! with a wrap-safe timer queue ([`timer_queue`], [`ticks`]). A hardware
//! edge interrupt enters through a dispatcher ([`dispatcher`]) that hands
//! data to tasks through a claim-once latch ([`latch`]) and arbitrates the
//! one shared peripheral with a masking lock ([`lock`]). The [`system`]
//! module assembles the components and proves the exclusion discipline
//! over every event sequence; [`tasks`] holds the task bodies as explicit
//! state machines.
//!
//! Control flow: interrupt -> dispatcher -> (lock, latch publish) -> task
//! woken in the scheduler -> task resumes, observes under the lock,
//! registers its next deadline, suspends.

pub mod dispatcher;
pub mod latch;
pub mod lock;
pub mod runner;
pub mod scheduler;
pub mod system;
pub mod tasks;
pub mod ticks;
pub mod timer_queue;
