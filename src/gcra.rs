//! The single-rate Virtual Scheduler and the helpers that derive its
//! parameters from rates and burst sizes.

use vstd::prelude::*;

use vstd::arithmetic::div_mod::lemma_fundamental_div_mod;

use crate::throttle::{Events, Throttle};
use crate::ticks::{fits, Ticks};

verus! {

/// The scaled interval `denominator * frequency` from which an increment is
/// derived, before it is shared out among the `numerator` events.
pub open spec fn scaled_interval(denominator: int, frequency: int) -> int {
    if denominator < 1 {
        0
    } else {
        frequency * denominator
    }
}

/// `x / y` for `y > 0`, rounded toward zero as integer division rounds.
pub open spec fn quotient(x: int, y: int) -> int {
    if x >= 0 {
        x / y
    } else {
        -((-x) / y)
    }
}

/// `x` shared out among `y > 0` parts: the quotient, plus one when a
/// remainder is left over. For `x >= 0` this is `x / y` rounded up.
pub open spec fn shared_out(x: int, y: int) -> int {
    if x == quotient(x, y) * y {
        quotient(x, y)
    } else {
        quotient(x, y) + 1
    }
}

/// The increment, in ticks per event, for a rate of `numerator` events every
/// `denominator` seconds at `frequency` ticks per second: the interval is
/// shared out among the events and rounded up, and a rate of less than one
/// event gives the largest interval there is.
pub open spec fn increment_of(numerator: int, denominator: int, frequency: int) -> int {
    if numerator < 1 {
        i64::MAX as int
    } else {
        shared_out(scaled_interval(denominator, frequency), numerator)
    }
}

/// Computes the increment in ticks per event for the rate
/// `numerator / denominator` events per second at `frequency` ticks per
/// second, rounded up so that the emitted rate never exceeds the requested
/// one. A non-positive numerator means a zero rate and gives `i64::MAX`.
///
/// A denominator below one is a caller error: it describes no rate, and the
/// scaled interval is then taken as zero, so a positive numerator gives an
/// increment of zero.
pub fn increment(numerator: i64, denominator: i64, frequency: Ticks) -> (i: Ticks)
    requires
        denominator > 1 ==> fits(frequency * denominator),
    ensures
        i == increment_of(numerator as int, denominator as int, frequency as int),
{
    let mut increment: Ticks = 0;
    if denominator < 1 {
    } else if denominator == 1 {
        increment = frequency;
    } else {
        increment = frequency * denominator;
    }
    if numerator < 1 {
        increment = i64::MAX;
    } else if numerator == 1 {
        assert(quotient(increment as int, 1) == increment);
    } else {
        let ghost scaled = increment as int;
        let remainder = increment % numerator;
        increment = increment / numerator;
        proof {
            let n = numerator as int;
            let m = if scaled >= 0 { scaled } else { -scaled };
            lemma_fundamental_div_mod(m, n);
            assert(scaled == increment * n + remainder) by (nonlinear_arith)
                requires
                    m == n * (m / n) + m % n,
                    scaled >= 0 ==> m == scaled && increment == m / n && remainder == m % n,
                    scaled < 0 ==> m == -scaled && increment == -(m / n) && remainder == -(m % n),
            ;
        }
        assert(increment < i64::MAX) by (nonlinear_arith)
            requires
                increment == quotient(scaled, numerator as int),
                numerator > 1,
                scaled <= i64::MAX,
        ;
        if remainder != 0 {
            increment = increment + 1;
        }
    }
    increment
}

} // verus!

verus! {

/// The jitter tolerance in ticks that a policer grants a stream shaped with
/// `increment` and bursts of `burstsize` events: `(burstsize - 1) * increment`
/// when both are positive and the burst is more than one event, else zero.
pub open spec fn jitter_of(increment: int, burstsize: int) -> int {
    if increment > 0 && burstsize > 1 {
        (burstsize - 1) * increment
    } else {
        0
    }
}

/// Computes the jitter tolerance in ticks for an increment in ticks and a
/// burst size in events.
pub fn jittertolerance(increment: Ticks, burstsize: i64) -> (limit: Ticks)
    requires
        fits(jitter_of(increment as int, burstsize as int)),
    ensures
        limit == jitter_of(increment as int, burstsize as int),
{
    let mut limit: Ticks = 0;
    if increment <= 0 {
    } else if burstsize <= 1 {
    } else {
        limit = (burstsize - 1) * increment;
    }
    limit
}

/// The state of a Virtual Scheduler, over mathematical integers.
///
/// The flags form a rolling history: `*0` is what the latest `request`
/// found (will be), `*1` the present and `*2` the step before (was).
pub struct GcraState {
    /// Time of the latest `request`.
    pub now: int,
    /// Time of the latest `commits`, the latest emission.
    pub last: int,
    /// `i`: contracted ticks per event.
    pub increment: int,
    /// `l`: largest tolerated deficit.
    pub limit: int,
    /// `x`: ticks from `last` until the next event would be exactly on time.
    pub expected: int,
    /// `x1`: the deficit that the latest `request` found.
    pub deficit: int,
    pub full0: bool,
    pub full1: bool,
    pub full2: bool,
    pub empty0: bool,
    pub empty1: bool,
    pub empty2: bool,
    pub alarmed1: bool,
    pub alarmed2: bool,
}

impl GcraState {
    /// An unconfigured scheduler: every field zero or false.
    pub open spec fn unconfigured() -> GcraState {
        GcraState {
            now: 0,
            last: 0,
            increment: 0,
            limit: 0,
            expected: 0,
            deficit: 0,
            full0: false,
            full1: false,
            full2: false,
            empty0: false,
            empty1: false,
            empty2: false,
            alarmed1: false,
            alarmed2: false,
        }
    }

    /// The initial state at time `now`: one increment has passed since the
    /// last emission, nothing is owed, and the history is empty throughout.
    pub open spec fn reset_at(self, now: int) -> GcraState {
        GcraState {
            now: now,
            last: now - self.increment,
            expected: 0,
            deficit: 0,
            full0: false,
            full1: false,
            full2: false,
            empty0: true,
            empty1: true,
            empty2: true,
            alarmed1: false,
            alarmed2: false,
            ..self
        }
    }

    /// The parameters replaced, then the initial state at time `now`.
    pub open spec fn initialized(self, increment: int, limit: int, now: int) -> GcraState {
        GcraState { increment: increment, limit: limit, ..self }.reset_at(now)
    }

    /// Ticks from the latest emission to `now`.
    pub open spec fn elapsed(self, now: int) -> int {
        now - self.last
    }

    /// The deficit at `now`: how far behind schedule an event at `now` is,
    /// zero if the whole expected interval has passed.
    pub open spec fn deficit_at(self, now: int) -> int {
        if self.expected <= self.elapsed(now) {
            0
        } else {
            self.expected - self.elapsed(now)
        }
    }

    /// The delay that `request(now)` returns: the part of the deficit at
    /// `now` beyond the limit, else zero.
    pub open spec fn delay(self, now: int) -> int {
        if self.expected <= self.elapsed(now) {
            0
        } else if self.expected - self.elapsed(now) <= self.limit {
            0
        } else {
            self.expected - self.elapsed(now) - self.limit
        }
    }

    /// The state after `request(now)`: the time, the deficit and the
    /// will-be flags are recomputed; nothing else changes.
    pub open spec fn requested(self, now: int) -> GcraState {
        if self.expected <= self.elapsed(now) {
            GcraState { now: now, deficit: 0, full0: false, empty0: true, ..self }
        } else {
            let deficit = self.expected - self.elapsed(now);
            GcraState { now: now, deficit: deficit, full0: deficit > self.limit, empty0: false, ..self }
        }
    }

    /// The ticks charged for `events` events: none for an idle count.
    pub open spec fn charge(self, events: int) -> int {
        if events > 0 {
            events * self.increment
        } else {
            0
        }
    }

    /// The state after `commits(events)`: the emission is anchored at the
    /// latest `request`, the deficit plus the charge becomes the expected
    /// interval, the history shifts one step, and the alarm is cleared on an
    /// emptied edge or raised on a filled one.
    pub open spec fn committed(self, events: int) -> GcraState {
        let emptied = self.empty0 && !self.empty1;
        let filled = self.full0 && !self.full1;
        GcraState {
            last: self.now,
            expected: self.deficit + self.charge(events),
            full2: self.full1,
            full1: self.full0,
            empty2: self.empty1,
            empty1: self.empty0,
            alarmed2: self.alarmed1,
            alarmed1: if emptied {
                false
            } else if filled {
                true
            } else {
                self.alarmed1
            },
            ..self
        }
    }

    /// The state after `admits(now, events)`.
    pub open spec fn admitted(self, now: int, events: int) -> GcraState {
        self.requested(now).committed(events)
    }

    /// Whether the stream is in contract: what `commits` returns.
    pub open spec fn conforming(self) -> bool {
        !self.alarmed1
    }

    /// The throttle just became empty.
    pub open spec fn emptied(self) -> bool {
        self.empty1 && !self.empty2
    }

    /// The throttle just became full.
    pub open spec fn filled(self) -> bool {
        self.full1 && !self.full2
    }

    /// The throttle just became alarmed.
    pub open spec fn alarmed(self) -> bool {
        self.alarmed1 && !self.alarmed2
    }

    /// The alarm was just cleared.
    pub open spec fn cleared(self) -> bool {
        !self.alarmed1 && self.alarmed2
    }

    /// No step of the history is empty and full at once.
    pub open spec fn coherent(self) -> bool {
        &&& !(self.empty0 && self.full0)
        &&& !(self.empty1 && self.full1)
        &&& !(self.empty2 && self.full2)
    }

    /// A configured scheduler driven by non-decreasing time: coherent flags,
    /// non-negative parameters and deficits, and the latest emission no
    /// later than the latest request.
    pub open spec fn valid(self) -> bool {
        &&& self.coherent()
        &&& self.increment >= 0
        &&& self.limit >= 0
        &&& self.expected >= 0
        &&& self.deficit >= 0
        &&& self.last <= self.now
    }

    /// `reset(now)` computes only with values that fit in 64 bits.
    pub open spec fn reset_fits(self, now: int) -> bool {
        fits(now - self.increment)
    }

    /// `request(now)` computes only with values that fit in 64 bits.
    pub open spec fn request_fits(self, now: int) -> bool {
        &&& fits(self.elapsed(now))
        &&& self.expected > self.elapsed(now) ==> fits(self.expected - self.elapsed(now))
        &&& self.expected > self.elapsed(now) && self.expected - self.elapsed(now) > self.limit
            ==> fits(
            self.expected - self.elapsed(now) - self.limit,
        )
    }

    /// `commits(events)` computes only with values that fit in 64 bits.
    pub open spec fn commits_fits(self, events: int) -> bool {
        &&& fits(self.charge(events))
        &&& fits(self.deficit + self.charge(events))
    }

    /// `admits(now, events)` computes only with values that fit in 64 bits.
    pub open spec fn admits_fits(self, now: int, events: int) -> bool {
        self.request_fits(now) && self.requested(now).commits_fits(events)
    }
}

} // verus!

verus! {

/// A single-rate Generic Cell Rate Algorithm throttle, realised as a
/// Virtual Scheduler.
///
/// It compares the inter-arrival interval of events with the contracted
/// increment and accumulates the difference as a deficit; when the deficit
/// exceeds the limit the stream is out of contract. An event may be a cell,
/// a packet or a byte, so variable-length blocks are shaped by their mean
/// bandwidth. Its abstract state is a `GcraState`.
#[derive(Clone, Copy)]
pub struct Gcra {
    now: Ticks,
    last: Ticks,
    increment: Ticks,
    limit: Ticks,
    expected: Ticks,
    deficit: Ticks,
    full0: bool,
    full1: bool,
    full2: bool,
    empty0: bool,
    empty1: bool,
    empty2: bool,
    alarmed1: bool,
    alarmed2: bool,
}

impl View for Gcra {
    type V = GcraState;

    closed spec fn view(&self) -> GcraState {
        GcraState {
            now: self.now as int,
            last: self.last as int,
            increment: self.increment as int,
            limit: self.limit as int,
            expected: self.expected as int,
            deficit: self.deficit as int,
            full0: self.full0,
            full1: self.full1,
            full2: self.full2,
            empty0: self.empty0,
            empty1: self.empty1,
            empty2: self.empty2,
            alarmed1: self.alarmed1,
            alarmed2: self.alarmed2,
        }
    }
}

/// Whether a wide value can be held in a `Ticks` value.
fn fits_ticks(v: i128) -> (b: bool)
    ensures
        b == fits(v as int),
{
    i64::MIN as i128 <= v && v <= i64::MAX as i128
}

/// Whether charging `events` at `increment` on top of `deficit` computes
/// only with values that fit in 64 bits.
fn charge_fits(deficit: i128, increment: Ticks, events: Events) -> (b: bool)
    requires
        fits(deficit as int),
    ensures
        b == ({
            let charge = if events > 0 { events * increment } else { 0int };
            fits(charge) && fits(deficit + charge)
        }),
{
    let charge: i128 = if events > 0 {
        assert(-0x4000_0000_0000_0000_0000_0000_0000_0000 <= events * increment
            <= 0x4000_0000_0000_0000_0000_0000_0000_0000) by (nonlinear_arith)
            requires
                0 < events <= i64::MAX,
                i64::MIN <= increment <= i64::MAX,
        ;
        events as i128 * increment as i128
    } else {
        0
    };
    fits_ticks(charge) && fits_ticks(deficit + charge)
}

/// The digit that shows a flag: `'1'` for set, `'0'` for clear.
pub open spec fn digit(b: bool) -> char {
    if b {
        '1'
    } else {
        '0'
    }
}

/// The text that `format!` writes for a scheduler's printable form, from
/// its size in bytes, the ticks since the latest emission, the increment,
/// limit, expected interval and deficit, and the eight flag digits. It
/// depends on these values alone.
pub uninterp spec fn gcra_text(
    size: int,
    elapsed: int,
    increment: int,
    limit: int,
    expected: int,
    deficit: int,
    flags: Seq<char>,
) -> Seq<char>;

/// The printable form of a scheduler in state `g`.
pub open spec fn text_of(g: GcraState) -> Seq<char> {
    gcra_text(
        vstd::layout::size_of::<Gcra>() as int,
        g.now - g.last,
        g.increment,
        g.limit,
        g.expected,
        g.deficit,
        seq![
            digit(g.full0),
            digit(g.full1),
            digit(g.full2),
            digit(g.empty0),
            digit(g.empty1),
            digit(g.empty2),
            digit(g.alarmed1),
            digit(g.alarmed2),
        ],
    )
}

/// The digit that shows a flag: `'1'` for set, `'0'` for clear.
fn btoc(b: bool) -> (c: char)
    ensures
        c == digit(b),
{
    if b {
        '1'
    } else {
        '0'
    }
}

/// Relies on std's `format!`: writes the values in decimal and the flag
/// digits inside a fixed frame.
#[verifier::external_body]
fn render_gcra(
    size: usize,
    elapsed: i128,
    increment: i64,
    limit: i64,
    expected: i64,
    deficit: i64,
    full: (char, char, char),
    empty: (char, char, char),
    alarmed: (char, char),
) -> (r: String)
    ensures
        r@ == gcra_text(
            size as int,
            elapsed as int,
            increment as int,
            limit as int,
            expected as int,
            deficit as int,
            seq![full.0, full.1, full.2, empty.0, empty.1, empty.2, alarmed.0, alarmed.1],
        ),
{
    format!(
        "Gcra[{}]:{{t:{},i:{},l:{},x:{},x1:{},f:{{{},{},{}}},e:{{{},{},{}}},a:{{{},{}}}}}",
        size, elapsed, increment, limit, expected, deficit, full.0, full.1, full.2,
        empty.0, empty.1, empty.2, alarmed.0, alarmed.1,
    )
}

impl Gcra {
    /// A new unconfigured throttle with every field zero or false. It
    /// delays nothing; call `init` before use.
    pub fn new() -> (g: Gcra)
        ensures
            g@ == GcraState::unconfigured(),
    {
        Gcra {
            now: 0,
            last: 0,
            increment: 0,
            limit: 0,
            expected: 0,
            deficit: 0,
            full0: false,
            full1: false,
            full2: false,
            empty0: false,
            empty1: false,
            empty2: false,
            alarmed1: false,
            alarmed2: false,
        }
    }

    /// Configures the increment and limit in ticks and resets the throttle
    /// at `now`; returns a copy of the result.
    pub fn init(&mut self, increment: Ticks, limit: Ticks, now: Ticks) -> (g: Gcra)
        requires
            fits(now - increment),
        ensures
            final(self)@ == old(self)@.initialized(increment as int, limit as int, now as int),
            g@ == final(self)@,
    {
        self.increment = increment;
        self.limit = limit;
        self.reset(now);
        *self
    }

    /// The printable form: the ticks since the latest emission, the
    /// increment, limit, expected interval and deficit, and the eight flags.
    pub fn to_string(&self) -> (s: String)
        ensures
            s@ == text_of(self@),
    {
        let elapsed: i128 = self.now as i128 - self.last as i128;
        render_gcra(
            core::mem::size_of::<Gcra>(),
            elapsed,
            self.increment,
            self.limit,
            self.expected,
            self.deficit,
            (btoc(self.full0), btoc(self.full1), btoc(self.full2)),
            (btoc(self.empty0), btoc(self.empty1), btoc(self.empty2)),
            (btoc(self.alarmed1), btoc(self.alarmed2)),
        )
    }
}

impl Throttle for Gcra {
    open spec fn reset_allowed(&self, now: Ticks) -> bool {
        self@.reset_fits(now as int)
    }

    open spec fn request_allowed(&self, now: Ticks) -> bool {
        self@.request_fits(now as int)
    }

    open spec fn commits_allowed(&self, events: Events) -> bool {
        self@.commits_fits(events as int)
    }

    open spec fn admits_allowed(&self, now: Ticks, events: Events) -> bool {
        self@.admits_fits(now as int, events as int)
    }

    fn can_request(&self, now: Ticks) -> (b: bool) {
        let elapsed: i128 = now as i128 - self.last as i128;
        let deficit: i128 = self.expected as i128 - elapsed;
        let behind: bool = self.expected as i128 > elapsed;
        fits_ticks(elapsed) && (!behind || fits_ticks(deficit)) && (!(behind && deficit
            > self.limit as i128) || fits_ticks(deficit - self.limit as i128))
    }

    fn can_commit(&self, events: Events) -> (b: bool) {
        charge_fits(self.deficit as i128, self.increment, events)
    }

    fn can_admit(&self, now: Ticks, events: Events) -> (b: bool) {
        if !self.can_request(now) {
            return false;
        }
        let elapsed: i128 = now as i128 - self.last as i128;
        let deficit: i128 = if self.expected as i128 <= elapsed {
            0
        } else {
            self.expected as i128 - elapsed
        };
        charge_fits(deficit, self.increment, events)
    }

    fn size_of(&self) -> (n: usize)
        ensures
            n == vstd::layout::size_of::<Gcra>(),
    {
        core::mem::size_of::<Gcra>()
    }

    fn as_string(&self) -> (s: String)
        ensures
            s@ == text_of(self@),
    {
        self.to_string()
    }

    fn reset(&mut self, now: Ticks)
        ensures
            final(self)@ == old(self)@.reset_at(now as int),
            final(self)@.coherent(),
    {
        self.now = now;
        self.last = self.now - self.increment;
        self.expected = 0;
        self.deficit = 0;
        self.full0 = false;
        self.full1 = false;
        self.full2 = false;
        self.empty0 = true;
        self.empty1 = true;
        self.empty2 = true;
        self.alarmed1 = false;
        self.alarmed2 = false;
    }

    fn request(&mut self, now: Ticks) -> (delay: Ticks)
        ensures
            delay == old(self)@.delay(now as int),
            final(self)@ == old(self)@.requested(now as int),
            old(self)@.coherent() ==> final(self)@.coherent(),
            final(self)@.requested(now as int) == final(self)@,
            final(self)@.delay(now as int) == delay,
    {
        let delay: Ticks;
        self.now = now;
        let elapsed: Ticks = self.now - self.last;
        if self.expected <= elapsed {
            self.deficit = 0;
            self.full0 = false;
            self.empty0 = true;
            delay = 0;
        } else {
            self.deficit = self.expected - elapsed;
            if self.deficit <= self.limit {
                self.full0 = false;
                self.empty0 = false;
                delay = 0;
            } else {
                self.full0 = true;
                self.empty0 = false;
                delay = self.deficit - self.limit;
            }
        }
        delay
    }

    fn commits(&mut self, events: Events) -> (conforming: bool)
        ensures
            final(self)@ == old(self)@.committed(events as int),
            conforming == final(self)@.conforming(),
            old(self)@.coherent() ==> final(self)@.coherent(),
    {
        self.last = self.now;
        self.expected = self.deficit;
        if events <= 0 {
        } else if events == 1 {
            self.expected = self.expected + self.increment;
        } else {
            assert(self.increment * events == events * self.increment) by (nonlinear_arith);
            self.expected = self.expected + self.increment * events;
        }
        self.full2 = self.full1;
        self.full1 = self.full0;
        self.empty2 = self.empty1;
        self.empty1 = self.empty0;
        self.alarmed2 = self.alarmed1;
        if self.emptied() {
            self.alarmed1 = false;
        } else if self.filled() {
            self.alarmed1 = true;
        }
        !self.alarmed1
    }

    fn commit(&mut self) -> (conforming: bool)
        ensures
            final(self)@ == old(self)@.committed(1),
            conforming == final(self)@.conforming(),
    {
        self.commits(1)
    }

    fn admits(&mut self, now: Ticks, events: Events) -> (conforming: bool)
        ensures
            final(self)@ == old(self)@.admitted(now as int, events as int),
            conforming == final(self)@.conforming(),
    {
        self.request(now);
        self.commits(events)
    }

    fn admit_one(&mut self, now: Ticks) -> (conforming: bool)
        ensures
            final(self)@ == old(self)@.admitted(now as int, 1),
            conforming == final(self)@.conforming(),
    {
        self.admits(now, 1)
    }

    fn update(&mut self, now: Ticks) -> (conforming: bool)
        ensures
            final(self)@ == old(self)@.admitted(now as int, 0),
            conforming == final(self)@.conforming(),
            old(self)@.valid() && now >= old(self)@.now ==> {
                &&& final(self)@.valid()
                &&& 0 <= final(self)@.expected <= old(self)@.expected
                &&& now - old(self)@.last >= old(self)@.expected ==> final(self)@.expected == 0
            },
    {
        proof {
            if old(self)@.valid() && now >= old(self)@.now {
                lemma_update_drains(old(self)@, now as int);
            }
        }
        self.admits(now, 0)
    }

    fn get_expected(&self) -> (x: Ticks)
        ensures
            x == self@.expected,
    {
        self.expected
    }

    fn is_empty(&self) -> (b: bool)
        ensures
            b == self@.empty1,
    {
        self.empty1
    }

    fn is_full(&self) -> (b: bool)
        ensures
            b == self@.full1,
    {
        self.full1
    }

    fn is_alarmed(&self) -> (b: bool)
        ensures
            b == self@.alarmed1,
    {
        self.alarmed1
    }

    fn emptied(&self) -> (b: bool)
        ensures
            b == self@.emptied(),
    {
        self.empty1 && !self.empty2
    }

    fn filled(&self) -> (b: bool)
        ensures
            b == self@.filled(),
    {
        self.full1 && !self.full2
    }

    fn alarmed(&self) -> (b: bool)
        ensures
            b == self@.alarmed(),
    {
        self.alarmed1 && !self.alarmed2
    }

    fn cleared(&self) -> (b: bool)
        ensures
            b == self@.cleared(),
    {
        !self.alarmed1 && self.alarmed2
    }
}

} // verus!

verus! {

/// The rounded-up increment never lets the emitted rate exceed the requested
/// one: `increment * numerator >= denominator * frequency`, and it is less
/// than one tick per event above the exact interval.
pub proof fn lemma_increment_covers_rate(numerator: int, denominator: int, frequency: int)
    requires
        numerator >= 1,
        denominator >= 1,
        frequency >= 0,
    ensures
        increment_of(numerator, denominator, frequency) * numerator >= denominator * frequency,
        increment_of(numerator, denominator, frequency) * numerator < denominator * frequency
            + numerator,
{
    let x = frequency * denominator;
    assert(x >= 0) by (nonlinear_arith)
        requires
            x == frequency * denominator,
            frequency >= 0,
            denominator >= 1,
    ;
    assert(scaled_interval(denominator, frequency) == x);
    let q = x / numerator;
    lemma_fundamental_div_mod(x, numerator);
    assert(quotient(x, numerator) == q);
    let i = increment_of(numerator, denominator, frequency);
    if x == q * numerator {
        assert(i == q);
        assert(i * numerator == x) by (nonlinear_arith)
            requires
                i == q,
                x == q * numerator,
        ;
    } else {
        assert(i == q + 1);
        assert(0 < x % numerator < numerator) by {
            vstd::arithmetic::div_mod::lemma_mod_bound(x, numerator);
        }
        assert(i * numerator == x - x % numerator + numerator) by (nonlinear_arith)
            requires
                i == q + 1,
                x == numerator * q + x % numerator,
        ;
    }
    assert(x == denominator * frequency) by (nonlinear_arith)
        requires
            x == frequency * denominator,
    ;
}

/// For a burst of at least one event and a non-negative increment, the
/// jitter tolerance is `(burstsize - 1) * increment`.
pub proof fn lemma_jitter_formula(increment: int, burstsize: int)
    requires
        increment >= 0,
        burstsize >= 1,
    ensures
        jitter_of(increment, burstsize) == (burstsize - 1) * increment,
{
    if increment == 0 {
        assert((burstsize - 1) * 0 == 0) by (nonlinear_arith);
    } else if burstsize == 1 {
        assert(0 * increment == 0) by (nonlinear_arith);
    }
}

/// Right after a reset at `t`, a request at `t` owes no delay and one event
/// committed there is in contract.
pub proof fn lemma_reset_conforms(s: GcraState, t: int)
    requires
        s.increment >= 0,
    ensures
        s.reset_at(t).delay(t) == 0,
        s.reset_at(t).requested(t).committed(1).conforming(),
{
}

/// The scheduler after `count` events, one at each of `start`,
/// `start + increment`, `start + 2 * increment`, ...: each asked for with a
/// request at its time and committed there.
pub open spec fn paced(s: GcraState, start: int, count: nat) -> GcraState
    decreases count,
{
    if count == 0 {
        s
    } else {
        let k = (count - 1) as nat;
        paced(s, start, k).admitted(start + k * s.increment, 1)
    }
}

/// Nothing is owed at `next`, nothing is full, and the history is empty and
/// unalarmed.
pub open spec fn calm(s: GcraState, next: int) -> bool {
    &&& s.expected <= s.elapsed(next)
    &&& s.empty1
    &&& !s.full1
    &&& !s.alarmed1
}

proof fn lemma_paced_calm(s: GcraState, increment: int, limit: int, t: int, count: nat)
    requires
        increment >= 0,
    ensures
        paced(s.initialized(increment, limit, t), t, count).increment == increment,
        calm(paced(s.initialized(increment, limit, t), t, count), t + count * increment),
    decreases count,
{
    if count > 0 {
        let k = (count - 1) as nat;
        lemma_paced_calm(s, increment, limit, t, k);
        assert(t + k * increment + increment == t + count * increment) by (nonlinear_arith)
            requires
                k == count - 1,
        ;
    }
}

/// Steady emission at the contracted rate: after `init(increment, limit, t)`,
/// the event at `t + k * increment`, for every `k`, is asked for with no
/// delay and committed in contract.
pub proof fn lemma_steady_emission(s: GcraState, increment: int, limit: int, t: int, k: nat)
    requires
        increment >= 0,
    ensures
        paced(s.initialized(increment, limit, t), t, k).delay(t + k * increment) == 0,
        paced(s.initialized(increment, limit, t), t, k).admitted(t + k * increment, 1).conforming(),
{
    lemma_paced_calm(s, increment, limit, t, k);
}

/// Every operation keeps the flags coherent, and an unconfigured scheduler
/// starts coherent.
pub proof fn lemma_coherent_preserved(s: GcraState, now: int, events: int)
    requires
        s.coherent(),
    ensures
        GcraState::unconfigured().coherent(),
        s.reset_at(now).coherent(),
        s.requested(now).coherent(),
        s.committed(events).coherent(),
{
}

/// An empty scheduler is not full, and a full one is not empty.
pub proof fn lemma_empty_excludes_full(s: GcraState)
    requires
        s.coherent(),
    ensures
        s.empty1 ==> !s.full1,
        s.full1 ==> !s.empty1,
{
}

/// No step both raises and clears the alarm.
pub proof fn lemma_alarmed_excludes_cleared(s: GcraState)
    ensures
        !(s.alarmed() && s.cleared()),
{
}

/// An idle update at a time no earlier than the latest request never raises
/// the expected interval, never makes it negative, drains it to zero once
/// the whole interval has passed, and keeps the scheduler valid; so over
/// repeated updates at increasing times it falls monotonically to zero.
pub proof fn lemma_update_drains(s: GcraState, now: int)
    requires
        s.valid(),
        now >= s.now,
    ensures
        0 <= s.admitted(now, 0).expected <= s.expected,
        s.elapsed(now) >= s.expected ==> s.admitted(now, 0).expected == 0,
        s.admitted(now, 0).valid(),
{
}

/// The scheduler after the first `count` of a series of idle updates, the
/// update numbered `j` at time `times[j]`.
pub open spec fn idled(s: GcraState, times: Seq<int>, count: nat) -> GcraState
    decreases count,
{
    if count == 0 {
        s
    } else {
        idled(s, times, (count - 1) as nat).admitted(times[count - 1], 0)
    }
}

/// Whether `times` is non-decreasing and starts no earlier than `from`.
pub open spec fn rising_from(times: Seq<int>, from: int) -> bool {
    &&& times.len() > 0 ==> from <= times[0]
    &&& forall|j: int| 0 < j < times.len() ==> times[j - 1] <= #[trigger] times[j]
}

proof fn lemma_idled_exact(s: GcraState, times: Seq<int>, count: nat)
    requires
        s.valid(),
        rising_from(times, s.now),
        0 < count <= times.len(),
    ensures
        idled(s, times, count).valid(),
        idled(s, times, count).now == times[count - 1],
        idled(s, times, count).last == times[count - 1],
        idled(s, times, count).expected == (if s.expected > times[count - 1] - s.last {
            s.expected - (times[count - 1] - s.last)
        } else {
            0
        }),
    decreases count,
{
    if count == 1 {
        lemma_update_drains(s, times[0]);
    } else {
        let k = (count - 1) as nat;
        lemma_idled_exact(s, times, k);
        assert(times[k - 1] <= times[k as int]);
        lemma_update_drains(idled(s, times, k), times[k as int]);
    }
}

/// Idle updates at non-decreasing times, none earlier than the latest
/// request, lower the expected interval step by step and never below zero;
/// once an update comes when the whole interval has passed since the latest
/// emission, it is zero.
pub proof fn lemma_idle_updates_drain(s: GcraState, times: Seq<int>, count: nat)
    requires
        s.valid(),
        rising_from(times, s.now),
        0 < count <= times.len(),
    ensures
        0 <= idled(s, times, count).expected <= idled(s, times, (count - 1) as nat).expected,
        times[count - 1] - s.last >= s.expected ==> idled(s, times, count).expected == 0,
{
    lemma_idled_exact(s, times, count);
    if count > 1 {
        lemma_idled_exact(s, times, (count - 1) as nat);
        assert(times[count - 2] <= times[count - 1]);
    }
}

/// `commits` with an idle count charges nothing: the expected interval
/// becomes the deficit that the request found, and the history shifts one
/// step. Committed at the time of the latest emission, it leaves the
/// expected interval as it was.
pub proof fn lemma_idle_commit(s: GcraState, now: int, events: int)
    requires
        events <= 0,
    ensures
        s.requested(now).committed(events).expected == s.deficit_at(now),
        s.requested(now).committed(events).full2 == s.full1,
        s.requested(now).committed(events).empty2 == s.empty1,
        s.requested(now).committed(events).alarmed2 == s.alarmed1,
        s.requested(now).committed(events).full1 == s.requested(now).full0,
        s.requested(now).committed(events).empty1 == s.requested(now).empty0,
        now == s.last && s.expected >= 0 ==> s.requested(now).committed(events).expected
            == s.expected,
{
}

/// A second request at the same time returns the same delay and leaves the
/// deficit and the will-be flags as the first one set them.
pub proof fn lemma_request_idempotent(s: GcraState, now: int)
    ensures
        s.requested(now).delay(now) == s.delay(now),
        s.requested(now).requested(now) == s.requested(now),
{
}

/// An event exactly one increment after the latest emission, when at most
/// one increment was expected, owes no delay, finds the scheduler empty and
/// leaves it empty once committed.
pub proof fn lemma_on_time_event(s: GcraState)
    requires
        s.expected <= s.increment,
    ensures
        s.delay(s.last + s.increment) == 0,
        s.requested(s.last + s.increment).empty0,
        s.admitted(s.last + s.increment, 1).empty1,
{
}

/// A shaper and a policer that agree on the schedule: the same increment,
/// latest emission and expected interval, a policer limit no smaller than
/// the shaper's, and a policer that is neither full nor alarmed.
pub open spec fn in_step(shaper: GcraState, policer: GcraState) -> bool {
    &&& policer.increment == shaper.increment
    &&& policer.last == shaper.last
    &&& policer.expected == shaper.expected
    &&& policer.limit >= shaper.limit
    &&& !policer.full1
    &&& !policer.alarmed1
}

/// A shaper and a policer configured alike, the policer with at least the
/// shaper's limit, start in step.
pub proof fn lemma_in_step_after_init(
    shaper: GcraState,
    policer: GcraState,
    increment: int,
    shaperlimit: int,
    policerlimit: int,
    t: int,
)
    requires
        shaperlimit <= policerlimit,
    ensures
        in_step(
            shaper.initialized(increment, shaperlimit, t),
            policer.initialized(increment, policerlimit, t),
        ),
{
}

/// What a shaper emits, a policer in step with it admits. The shaper asks at
/// `now`, the caller waits at least the delay it returned, asks again (no
/// delay is owed) and commits `events`; the policer admits the same events
/// at the same time, finds them in contract, and stays in step.
pub proof fn lemma_shaped_stream_is_policed(
    shaper: GcraState,
    policer: GcraState,
    now: int,
    wait: int,
    events: int,
)
    requires
        in_step(shaper, policer),
        wait >= shaper.delay(now),
    ensures
        ({
            let asked = shaper.requested(now);
            &&& asked.delay(now + wait) == 0
            &&& policer.admitted(now + wait, events).conforming()
            &&& in_step(
                asked.requested(now + wait).committed(events),
                policer.admitted(now + wait, events),
            )
        }),
{
}

} // verus!
