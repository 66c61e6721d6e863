//! The tick domain: a signed 64-bit count of time units at a fixed frequency.

use vstd::prelude::*;

verus! {

/// A monotonic time value, or a difference of two, in units of
/// `1 / frequency()` seconds.
pub type Ticks = i64;

/// The number of ticks in one second: nanosecond resolution.
pub const FREQUENCY: Ticks = 1_000_000_000;

/// Returns the resolution of a `Ticks` value in ticks per second (Hertz).
pub fn frequency() -> (hz: Ticks)
    ensures
        hz == FREQUENCY,
{
    FREQUENCY
}

/// Whether a mathematical integer can be held in a `Ticks` value.
pub open spec fn fits(v: int) -> bool {
    i64::MIN <= v <= i64::MAX
}

/// Converts a duration of whole seconds and nanoseconds into ticks.
pub fn ticks_of(seconds: u64, nanoseconds: u32) -> (t: Ticks)
    requires
        fits(seconds * FREQUENCY + nanoseconds),
    ensures
        t == seconds * FREQUENCY + nanoseconds,
{
    assert(seconds <= i64::MAX) by (nonlinear_arith)
        requires
            seconds * FREQUENCY + nanoseconds <= i64::MAX,
            nanoseconds >= 0,
    ;
    let whole: Ticks = seconds as Ticks;
    whole * frequency() + nanoseconds as Ticks
}

} // verus!
