//! The dual-rate traffic contract: a peak-rate and a sustained-rate
//! scheduler that an event stream must satisfy together.

use vstd::prelude::*;

use crate::gcra::{
    in_step, lemma_reset_conforms, text_of, lemma_shaped_stream_is_policed, lemma_update_drains, Gcra,
    GcraState,
};
use crate::throttle::{Events, Throttle};
use crate::ticks::{fits, Ticks};

verus! {

/// The burst tolerance in ticks, the limit of the sustained-rate scheduler:
/// the jitter tolerance, plus `(burstsize - 1)` times the gap between the
/// sustained and the peak increment when the peak rate is the faster one
/// and a burst holds more than one event.
pub open spec fn burst_of(
    peakincrement: int,
    jittertolerance: int,
    sustainedincrement: int,
    burstsize: int,
) -> int {
    if peakincrement < sustainedincrement && burstsize > 1 {
        jittertolerance + (burstsize - 1) * (sustainedincrement - peakincrement)
    } else {
        jittertolerance
    }
}

/// Computes the burst tolerance in ticks from the peak increment, the
/// jitter tolerance and the sustained increment in ticks and the largest
/// burst in events at the peak rate.
pub fn bursttolerance(
    peakincrement: Ticks,
    jittertolerance: Ticks,
    sustainedincrement: Ticks,
    burstsize: Events,
) -> (limit: Ticks)
    requires
        peakincrement < sustainedincrement && burstsize > 1 ==> {
            &&& fits(sustainedincrement - peakincrement)
            &&& fits((burstsize - 1) * (sustainedincrement - peakincrement))
            &&& fits(burst_of(
                peakincrement as int,
                jittertolerance as int,
                sustainedincrement as int,
                burstsize as int,
            ))
        },
    ensures
        limit == burst_of(
            peakincrement as int,
            jittertolerance as int,
            sustainedincrement as int,
            burstsize as int,
        ),
{
    let mut limit: Ticks = jittertolerance;
    if peakincrement >= sustainedincrement {
    } else if burstsize <= 1 {
    } else {
        limit = limit + (burstsize - 1) * (sustainedincrement - peakincrement);
    }
    limit
}

/// The state of a traffic contract: its two schedulers.
pub struct ContractState {
    pub peak: GcraState,
    pub sustained: GcraState,
}

/// The larger of two integers.
pub open spec fn larger(a: int, b: int) -> int {
    if a > b {
        a
    } else {
        b
    }
}

impl ContractState {
    /// Both schedulers unconfigured.
    pub open spec fn unconfigured() -> ContractState {
        ContractState { peak: GcraState::unconfigured(), sustained: GcraState::unconfigured() }
    }

    /// Both schedulers reset at `now`.
    pub open spec fn reset_at(self, now: int) -> ContractState {
        ContractState { peak: self.peak.reset_at(now), sustained: self.sustained.reset_at(now) }
    }

    /// The peak scheduler configured with the peak increment and the jitter
    /// tolerance, the sustained one with the sustained increment and the
    /// burst tolerance, both reset at `now`.
    pub open spec fn initialized(
        self,
        peakincrement: int,
        jittertolerance: int,
        sustainedincrement: int,
        bursttolerance: int,
        now: int,
    ) -> ContractState {
        ContractState {
            peak: self.peak.initialized(peakincrement, jittertolerance, now),
            sustained: self.sustained.initialized(sustainedincrement, bursttolerance, now),
        }
    }

    /// The delay at `now`: the stricter of the two.
    pub open spec fn delay(self, now: int) -> int {
        larger(self.peak.delay(now), self.sustained.delay(now))
    }

    /// Both schedulers after `request(now)`.
    pub open spec fn requested(self, now: int) -> ContractState {
        ContractState { peak: self.peak.requested(now), sustained: self.sustained.requested(now) }
    }

    /// Both schedulers after `commits(events)`.
    pub open spec fn committed(self, events: int) -> ContractState {
        ContractState {
            peak: self.peak.committed(events),
            sustained: self.sustained.committed(events),
        }
    }

    /// Both schedulers after `admits(now, events)`.
    pub open spec fn admitted(self, now: int, events: int) -> ContractState {
        self.requested(now).committed(events)
    }

    /// Ticks until both deficits would be paid off.
    pub open spec fn expected(self) -> int {
        larger(self.peak.expected, self.sustained.expected)
    }

    /// In contract only when both schedulers are.
    pub open spec fn conforming(self) -> bool {
        self.peak.conforming() && self.sustained.conforming()
    }

    /// Empty only when both schedulers are.
    pub open spec fn is_empty(self) -> bool {
        self.peak.empty1 && self.sustained.empty1
    }

    /// Full when either scheduler is.
    pub open spec fn is_full(self) -> bool {
        self.peak.full1 || self.sustained.full1
    }

    /// Alarmed when either scheduler is.
    pub open spec fn is_alarmed(self) -> bool {
        self.peak.alarmed1 || self.sustained.alarmed1
    }

    /// Either scheduler just became empty.
    pub open spec fn emptied(self) -> bool {
        self.peak.emptied() || self.sustained.emptied()
    }

    /// Either scheduler just became full.
    pub open spec fn filled(self) -> bool {
        self.peak.filled() || self.sustained.filled()
    }

    /// Either scheduler just became alarmed.
    pub open spec fn alarmed(self) -> bool {
        self.peak.alarmed() || self.sustained.alarmed()
    }

    /// Either scheduler just had its alarm cleared.
    pub open spec fn cleared(self) -> bool {
        self.peak.cleared() || self.sustained.cleared()
    }
}

/// A traffic contract made of two GCRA throttles: the peak rate, with the
/// jitter tolerance as its limit, and the sustained rate, with the burst
/// tolerance as its limit. Every operation goes to both, peak first; a
/// stream conforms only when it conforms to both.
#[derive(Clone, Copy)]
pub struct Contract {
    peak: Gcra,
    sustained: Gcra,
}

impl View for Contract {
    type V = ContractState;

    closed spec fn view(&self) -> ContractState {
        ContractState { peak: self.peak@, sustained: self.sustained@ }
    }
}

/// The text that `format!` writes for a contract's printable form, from its
/// size in bytes and its two schedulers' printable forms. It depends on
/// these values alone.
pub uninterp spec fn contract_text(size: int, peak: Seq<char>, sustained: Seq<char>) -> Seq<char>;

/// Relies on std's `format!`: frames the two schedulers' printable forms.
#[verifier::external_body]
fn render_contract(size: usize, peak: String, sustained: String) -> (r: String)
    ensures
        r@ == contract_text(size as int, peak@, sustained@),
{
    format!("Contract[{}]:{{p:{},s:{}}}", size, peak, sustained)
}

impl Contract {
    /// The size of a contract in bytes.
    pub fn size_of(&self) -> (n: usize)
        ensures
            n == vstd::layout::size_of::<Contract>(),
    {
        core::mem::size_of::<Contract>()
    }

    /// A new contract whose two schedulers are unconfigured.
    pub fn new() -> (c: Contract)
        ensures
            c@ == ContractState::unconfigured(),
    {
        Contract { peak: Gcra::new(), sustained: Gcra::new() }
    }

    /// Configures the peak scheduler with the peak increment and the jitter
    /// tolerance, the sustained one with the sustained increment and the
    /// burst tolerance, resets both at `now`, and returns a copy.
    pub fn init(
        &mut self,
        peakincrement: Ticks,
        jittertolerance: Ticks,
        sustainedincrement: Ticks,
        bursttolerance: Ticks,
        now: Ticks,
    ) -> (c: Contract)
        requires
            fits(now - peakincrement),
            fits(now - sustainedincrement),
        ensures
            final(self)@ == old(self)@.initialized(
                peakincrement as int,
                jittertolerance as int,
                sustainedincrement as int,
                bursttolerance as int,
                now as int,
            ),
            c@ == final(self)@,
    {
        self.peak.init(peakincrement, jittertolerance, now);
        self.sustained.init(sustainedincrement, bursttolerance, now);
        *self
    }

    /// The printable form: the two schedulers' forms, labelled.
    pub fn to_string(&self) -> (s: String)
        ensures
            s@ == contract_text(
                vstd::layout::size_of::<Contract>() as int,
                text_of(self@.peak),
                text_of(self@.sustained),
            ),
    {
        render_contract(
            core::mem::size_of::<Contract>(),
            self.peak.to_string(),
            self.sustained.to_string(),
        )
    }
}

impl Throttle for Contract {
    open spec fn reset_allowed(&self, now: Ticks) -> bool {
        self@.peak.reset_fits(now as int) && self@.sustained.reset_fits(now as int)
    }

    open spec fn request_allowed(&self, now: Ticks) -> bool {
        self@.peak.request_fits(now as int) && self@.sustained.request_fits(now as int)
    }

    open spec fn commits_allowed(&self, events: Events) -> bool {
        self@.peak.commits_fits(events as int) && self@.sustained.commits_fits(events as int)
    }

    open spec fn admits_allowed(&self, now: Ticks, events: Events) -> bool {
        self@.peak.admits_fits(now as int, events as int) && self@.sustained.admits_fits(
            now as int,
            events as int,
        )
    }

    fn can_request(&self, now: Ticks) -> (b: bool) {
        self.peak.can_request(now) && self.sustained.can_request(now)
    }

    fn can_commit(&self, events: Events) -> (b: bool) {
        self.peak.can_commit(events) && self.sustained.can_commit(events)
    }

    fn can_admit(&self, now: Ticks, events: Events) -> (b: bool) {
        self.peak.can_admit(now, events) && self.sustained.can_admit(now, events)
    }

    fn size_of(&self) -> (n: usize)
        ensures
            n == vstd::layout::size_of::<Contract>(),
    {
        core::mem::size_of::<Contract>()
    }

    fn as_string(&self) -> (s: String)
        ensures
            s@ == contract_text(
                vstd::layout::size_of::<Contract>() as int,
                text_of(self@.peak),
                text_of(self@.sustained),
            ),
    {
        self.to_string()
    }

    fn reset(&mut self, now: Ticks)
        ensures
            final(self)@ == old(self)@.reset_at(now as int),
    {
        self.peak.reset(now);
        self.sustained.reset(now);
    }

    fn request(&mut self, now: Ticks) -> (delay: Ticks)
        ensures
            delay == old(self)@.delay(now as int),
            final(self)@ == old(self)@.requested(now as int),
            delay >= old(self)@.peak.delay(now as int),
            delay >= old(self)@.sustained.delay(now as int),
            final(self)@.requested(now as int) == final(self)@,
            final(self)@.delay(now as int) == delay,
    {
        let delay: Ticks;
        let peak: Ticks = self.peak.request(now);
        let sustained: Ticks = self.sustained.request(now);
        if peak > sustained {
            delay = peak;
        } else {
            delay = sustained;
        }
        delay
    }

    fn commits(&mut self, events: Events) -> (conforming: bool)
        ensures
            final(self)@ == old(self)@.committed(events as int),
            conforming == final(self)@.conforming(),
    {
        let peak: bool = self.peak.commits(events);
        let sustained: bool = self.sustained.commits(events);
        peak && sustained
    }

    fn commit(&mut self) -> (conforming: bool)
        ensures
            final(self)@ == old(self)@.committed(1),
            conforming == final(self)@.conforming(),
    {
        let peak: bool = self.peak.commit();
        let sustained: bool = self.sustained.commit();
        peak && sustained
    }

    fn admits(&mut self, now: Ticks, events: Events) -> (conforming: bool)
        ensures
            final(self)@ == old(self)@.admitted(now as int, events as int),
            conforming == final(self)@.conforming(),
    {
        let peak: bool = self.peak.admits(now, events);
        let sustained: bool = self.sustained.admits(now, events);
        peak && sustained
    }

    fn admit_one(&mut self, now: Ticks) -> (conforming: bool)
        ensures
            final(self)@ == old(self)@.admitted(now as int, 1),
            conforming == final(self)@.conforming(),
    {
        let peak: bool = self.peak.admit_one(now);
        let sustained: bool = self.sustained.admit_one(now);
        peak && sustained
    }

    fn update(&mut self, now: Ticks) -> (conforming: bool)
        ensures
            final(self)@ == old(self)@.admitted(now as int, 0),
            conforming == final(self)@.conforming(),
            old(self)@.peak.valid() && old(self)@.sustained.valid() && now >= old(self)@.peak.now
                && now >= old(self)@.sustained.now ==> {
                &&& final(self)@.peak.valid()
                &&& final(self)@.sustained.valid()
                &&& 0 <= final(self)@.expected() <= old(self)@.expected()
            },
    {
        let peak: bool = self.peak.update(now);
        let sustained: bool = self.sustained.update(now);
        peak && sustained
    }

    fn get_expected(&self) -> (x: Ticks)
        ensures
            x == self@.expected(),
    {
        let delay: Ticks;
        let peak: Ticks = self.peak.get_expected();
        let sustained: Ticks = self.sustained.get_expected();
        if peak > sustained {
            delay = peak;
        } else {
            delay = sustained;
        }
        delay
    }

    fn is_empty(&self) -> (b: bool)
        ensures
            b == self@.is_empty(),
    {
        let peak: bool = self.peak.is_empty();
        let sustained: bool = self.sustained.is_empty();
        peak && sustained
    }

    fn is_full(&self) -> (b: bool)
        ensures
            b == self@.is_full(),
    {
        let peak: bool = self.peak.is_full();
        let sustained: bool = self.sustained.is_full();
        peak || sustained
    }

    fn is_alarmed(&self) -> (b: bool)
        ensures
            b == self@.is_alarmed(),
    {
        let peak: bool = self.peak.is_alarmed();
        let sustained: bool = self.sustained.is_alarmed();
        peak || sustained
    }

    fn emptied(&self) -> (b: bool)
        ensures
            b == self@.emptied(),
    {
        let peak: bool = self.peak.emptied();
        let sustained: bool = self.sustained.emptied();
        peak || sustained
    }

    fn filled(&self) -> (b: bool)
        ensures
            b == self@.filled(),
    {
        let peak: bool = self.peak.filled();
        let sustained: bool = self.sustained.filled();
        peak || sustained
    }

    fn alarmed(&self) -> (b: bool)
        ensures
            b == self@.alarmed(),
    {
        let peak: bool = self.peak.alarmed();
        let sustained: bool = self.sustained.alarmed();
        peak || sustained
    }

    fn cleared(&self) -> (b: bool)
        ensures
            b == self@.cleared(),
    {
        let peak: bool = self.peak.cleared();
        let sustained: bool = self.sustained.cleared();
        peak || sustained
    }
}

} // verus!

verus! {

/// Right after a reset at `t`, a contract whose increments are not negative
/// owes no delay at `t`, and one event committed there is in contract.
pub proof fn lemma_contract_reset_conforms(c: ContractState, t: int)
    requires
        c.peak.increment >= 0,
        c.sustained.increment >= 0,
    ensures
        c.reset_at(t).delay(t) == 0,
        c.reset_at(t).requested(t).committed(1).conforming(),
{
    lemma_reset_conforms(c.peak, t);
    lemma_reset_conforms(c.sustained, t);
}

/// A contract whose schedulers are coherent is never empty and full at once.
pub proof fn lemma_contract_empty_excludes_full(c: ContractState)
    requires
        c.peak.coherent(),
        c.sustained.coherent(),
    ensures
        c.is_empty() ==> !c.is_full(),
        c.is_full() ==> !c.is_empty(),
{
}

/// The delay of a contract is at least that of each scheduler and equal to
/// the larger of the two.
pub proof fn lemma_contract_delay_dominates(c: ContractState, now: int)
    ensures
        c.delay(now) >= c.peak.delay(now),
        c.delay(now) >= c.sustained.delay(now),
        c.delay(now) == c.peak.delay(now) || c.delay(now) == c.sustained.delay(now),
{
}

/// A second request at the same time returns the same delay and leaves both
/// schedulers as the first one left them.
pub proof fn lemma_contract_request_idempotent(c: ContractState, now: int)
    ensures
        c.requested(now).delay(now) == c.delay(now),
        c.requested(now).requested(now) == c.requested(now),
{
}

/// An idle update of a valid contract, at a time no earlier than the latest
/// request, never raises the expected interval, drains it to zero once both
/// intervals have passed, and keeps both schedulers valid.
pub proof fn lemma_contract_update_drains(c: ContractState, now: int)
    requires
        c.peak.valid(),
        c.sustained.valid(),
        now >= c.peak.now,
        now >= c.sustained.now,
    ensures
        0 <= c.admitted(now, 0).expected() <= c.expected(),
        c.peak.elapsed(now) >= c.peak.expected && c.sustained.elapsed(now) >= c.sustained.expected
            ==> c.admitted(now, 0).expected() == 0,
        c.admitted(now, 0).peak.valid(),
        c.admitted(now, 0).sustained.valid(),
{
    lemma_update_drains(c.peak, now);
    lemma_update_drains(c.sustained, now);
}

/// A shaping and a policing contract whose schedulers are pairwise in step.
pub open spec fn contract_in_step(shaper: ContractState, policer: ContractState) -> bool {
    in_step(shaper.peak, policer.peak) && in_step(shaper.sustained, policer.sustained)
}

/// Two contracts configured alike, the policer with at least the shaper's
/// jitter and burst tolerances, start in step.
pub proof fn lemma_contract_in_step_after_init(
    shaper: ContractState,
    policer: ContractState,
    peakincrement: int,
    sustainedincrement: int,
    shaperjitter: int,
    policerjitter: int,
    shaperburst: int,
    policerburst: int,
    t: int,
)
    requires
        shaperjitter <= policerjitter,
        shaperburst <= policerburst,
    ensures
        contract_in_step(
            shaper.initialized(peakincrement, shaperjitter, sustainedincrement, shaperburst, t),
            policer.initialized(peakincrement, policerjitter, sustainedincrement, policerburst, t),
        ),
{
}

/// What a shaping contract emits, a policing contract in step with it
/// admits: after waiting at least the delay the shaper returned, the shaper
/// owes no delay, the policer admits the same events in contract, and the
/// two stay in step.
pub proof fn lemma_contract_shaped_stream_is_policed(
    shaper: ContractState,
    policer: ContractState,
    now: int,
    wait: int,
    events: int,
)
    requires
        contract_in_step(shaper, policer),
        wait >= shaper.delay(now),
    ensures
        ({
            let asked = shaper.requested(now);
            &&& asked.delay(now + wait) == 0
            &&& policer.admitted(now + wait, events).conforming()
            &&& contract_in_step(
                asked.requested(now + wait).committed(events),
                policer.admitted(now + wait, events),
            )
        }),
{
    lemma_shaped_stream_is_policed(shaper.peak, policer.peak, now, wait, events);
    lemma_shaped_stream_is_policed(shaper.sustained, policer.sustained, now, wait, events);
}

} // verus!
