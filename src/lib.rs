//! Traffic shaping and policing built on the Generic Cell Rate Algorithm
//! (GCRA), realised as a Virtual Scheduler.
//!
//! Time is injected: every operation that changes state takes the current
//! time in ticks, so the core never reads a clock, never sleeps and never
//! allocates. Callers consult a throttle and act on its advice.

pub mod ticks;
pub mod throttle;
pub mod gcra;
pub mod contract;
pub mod fletcher;
