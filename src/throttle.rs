//! The behaviour that every rate limiter offers: a scheduler that is asked
//! for a delay and then told what was emitted.

use vstd::prelude::*;

use crate::ticks::Ticks;

verus! {

/// A count of events: cells, packets, bytes or bits, as the application
/// defines them. A throttle is configured in ticks per event. Zero or a
/// negative count is idle.
pub type Events = i64;

/// A throttle shapes event emission or polices event admission against a
/// traffic contract.
///
/// `request` is a query that never consumes budget; `commits` charges the
/// events emitted at the time of the latest `request`. A shaping caller asks
/// for the delay, waits, emits and commits; a policing caller admits what it
/// observed and learns whether that was in contract.
///
/// Each operation's arithmetic must fit in 64 bits; the `*_allowed`
/// predicates say for which arguments it does.
pub trait Throttle: Sized {
    /// `reset(now)` computes only with values that fit in 64 bits.
    spec fn reset_allowed(&self, now: Ticks) -> bool;

    /// `request(now)` computes only with values that fit in 64 bits.
    spec fn request_allowed(&self, now: Ticks) -> bool;

    /// `commits(events)` computes only with values that fit in 64 bits.
    spec fn commits_allowed(&self, events: Events) -> bool;

    /// `admits(now, events)` computes only with values that fit in 64 bits.
    spec fn admits_allowed(&self, now: Ticks, events: Events) -> bool;

    /// Whether `request(now)` may be called: its arithmetic fits in 64 bits.
    fn can_request(&self, now: Ticks) -> (b: bool)
        ensures
            b == self.request_allowed(now),
    ;

    /// Whether `commits(events)` may be called: its arithmetic fits in 64
    /// bits.
    fn can_commit(&self, events: Events) -> (b: bool)
        ensures
            b == self.commits_allowed(events),
    ;

    /// Whether `admits(now, events)` may be called: its arithmetic fits in 64
    /// bits.
    fn can_admit(&self, now: Ticks, events: Events) -> (b: bool)
        ensures
            b == self.admits_allowed(now, events),
    ;

    /// The size of the throttle in bytes.
    fn size_of(&self) -> usize;

    /// A printable form of the throttle, for diagnostics.
    fn as_string(&self) -> String;

    /// Returns the throttle to its initial state at time `now`.
    fn reset(&mut self, now: Ticks)
        requires
            old(self).reset_allowed(now),
    ;

    /// The delay in ticks before an event emitted at `now` would conform;
    /// zero if it conforms already. Consumes no budget.
    fn request(&mut self, now: Ticks) -> (delay: Ticks)
        requires
            old(self).request_allowed(now),
    ;

    /// Charges `events` emitted at the time of the latest `request`; returns
    /// whether the stream is in contract afterwards.
    fn commits(&mut self, events: Events) -> (conforming: bool)
        requires
            old(self).commits_allowed(events),
    ;

    /// `commits(1)`.
    fn commit(&mut self) -> (conforming: bool)
        requires
            old(self).commits_allowed(1),
    ;

    /// `request(now)` then `commits(events)`, ignoring the delay: the
    /// policing form.
    fn admits(&mut self, now: Ticks, events: Events) -> (conforming: bool)
        requires
            old(self).admits_allowed(now, events),
    ;

    /// `admits(now, 1)`.
    fn admit_one(&mut self, now: Ticks) -> (conforming: bool)
        requires
            old(self).admits_allowed(now, 1),
    ;

    /// `admits(now, 0)`: lets time pass with nothing emitted.
    fn update(&mut self, now: Ticks) -> (conforming: bool)
        requires
            old(self).admits_allowed(now, 0),
    ;

    /// Ticks until the deficit would be paid off.
    fn get_expected(&self) -> Ticks;

    /// Whether no deficit is accumulated.
    fn is_empty(&self) -> bool;

    /// Whether the deficit exceeds the limit.
    fn is_full(&self) -> bool;

    /// Whether the stream is out of contract.
    fn is_alarmed(&self) -> bool;

    /// Whether the throttle became empty on the latest `commits`.
    fn emptied(&self) -> bool;

    /// Whether the throttle became full on the latest `commits`.
    fn filled(&self) -> bool;

    /// Whether the throttle became alarmed on the latest `commits`.
    fn alarmed(&self) -> bool;

    /// Whether the alarm was cleared on the latest `commits`.
    fn cleared(&self) -> bool;
}

} // verus!
