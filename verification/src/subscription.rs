//! The event subscription: when to reconnect, how long to wait, and which lines carry events.

use vstd::arithmetic::power2::{lemma_pow2_pos, lemma_pow2_unfold, pow2};
use vstd::prelude::*;

use crate::command::{arg, pelagos_cmd, Platform};
use crate::text::trim_end_of;

verus! {

/// What the subscription is to be made with.
#[derive(Debug, Clone)]
pub struct SubConfig {
    pub profile: String,
    /// Changes whenever the subscription has to start over.
    pub generation: u64,
}

/// The generation after `generation`; the largest one is followed by 0.
pub open spec fn next_generation(generation: u64) -> u64 {
    if generation == u64::MAX {
        0
    } else {
        (generation + 1) as u64
    }
}

impl SubConfig {
    /// The configuration that a session starts with.
    pub fn new(profile: &str) -> (r: SubConfig)
        ensures
            r.profile@ == profile@,
            r.generation == 0,
    {
        SubConfig { profile: profile.to_string(), generation: 0 }
    }

    /// Makes the subscription start over.
    pub fn force_reconnect(&mut self)
        ensures
            final(self).profile == old(self).profile,
            final(self).generation == next_generation(old(self).generation),
            final(self).generation != old(self).generation,
    {
        self.generation = self.generation.wrapping_add(1);
    }

    /// Makes the subscription start over with another profile.
    pub fn switch_profile(&mut self, profile: &str)
        ensures
            final(self).profile@ == profile@,
            final(self).generation == next_generation(old(self).generation),
            final(self).generation != old(self).generation,
    {
        self.profile = profile.to_string();
        self.force_reconnect();
    }

    /// Makes the subscription start over where nothing was heard of it for too long.
    pub fn check_liveness(&mut self, silent_ms: u64) -> (r: bool)
        ensures
            r == stale(silent_ms as int),
            r == (silent_ms > 15_000),
            silent_ms <= 15_000 ==> final(self).generation == old(self).generation,
            silent_ms > 15_000 ==> final(self).generation != old(self).generation,
            final(self).profile == old(self).profile,
            final(self).generation == if r {
                next_generation(old(self).generation)
            } else {
                old(self).generation
            },
    {
        if silent_ms > LIVENESS_MS {
            self.force_reconnect();
            true
        } else {
            false
        }
    }

    /// Tells whether a subscription that was made at `generation` is still the right one.
    pub fn is_current(&self, generation: u64) -> (r: bool)
        ensures
            r == (self.generation == generation),
    {
        self.generation == generation
    }
}

/// How long a subscription may be silent, in milliseconds.
pub const LIVENESS_MS: u64 = 15_000;

/// The first wait between two attempts, in milliseconds.
pub const FIRST_WAIT_MS: u64 = 1_000;

/// The longest wait, in milliseconds.
pub const LONGEST_WAIT_MS: u64 = 30_000;

/// Tells whether a subscription has been silent for too long.
pub open spec fn stale(silent_ms: int) -> bool {
    silent_ms > LIVENESS_MS
}

/// The command line that subscribes to events.
pub fn subscribe_command(platform: Platform, profile: &str) -> (r: Vec<String>)
    ensures
        r.deep_view() == crate::command::pelagos_argv(platform, profile@).push("subscribe"@),
{
    let mut argv = pelagos_cmd(platform, profile);
    arg(&mut argv, "subscribe");
    argv
}

/// When to reconnect.
pub struct Reconnector {
    generation: u64,
    forced: bool,
    wait_ms: u64,
}

/// When to reconnect.
pub struct Backoff {
    /// The generation of the last attempt.
    pub generation: u64,
    /// Whether the generation of the last attempt was a new one.
    pub forced: bool,
    /// How long to wait once the next attempt has ended, in milliseconds.
    pub wait: int,
}

impl View for Reconnector {
    type V = Backoff;

    closed spec fn view(&self) -> Backoff {
        Backoff { generation: self.generation, forced: self.forced, wait: self.wait_ms as int }
    }
}

/// Twice the wait, but no more than the longest one.
pub open spec fn doubled(wait: int) -> int {
    if 2 * wait > LONGEST_WAIT_MS {
        LONGEST_WAIT_MS as int
    } else {
        2 * wait
    }
}

/// Before the first attempt.
pub open spec fn fresh() -> Backoff {
    Backoff { generation: u64::MAX, forced: false, wait: FIRST_WAIT_MS as int }
}

/// Tells whether the next wait lies between the first and the longest one.
pub open spec fn valid(b: Backoff) -> bool {
    FIRST_WAIT_MS <= b.wait <= LONGEST_WAIT_MS
}

/// Once an attempt at `generation` has begun. A new generation starts with the first wait.
pub open spec fn begun(b: Backoff, generation: u64) -> Backoff {
    Backoff {
        generation,
        forced: generation != b.generation,
        wait: if generation != b.generation {
            FIRST_WAIT_MS as int
        } else {
            b.wait
        },
    }
}

/// Tells whether the next attempt is made at once, where the attempt under way has ended and the
/// generation is `current`.
///
/// That is so where the generation has changed since the attempt began, and where the first
/// attempt at a new generation could not even be started.
pub open spec fn at_once(b: Backoff, connected: bool, current: u64) -> bool {
    current != b.generation || (b.forced && !connected)
}

/// How long to wait, once the attempt under way has ended and the generation is `current`.
pub open spec fn wait_after(b: Backoff, connected: bool, current: u64) -> int {
    if at_once(b, connected, current) {
        0
    } else {
        b.wait
    }
}

/// Once the attempt under way has ended and the generation is `current`.
pub open spec fn ended(b: Backoff, connected: bool, current: u64) -> Backoff {
    Backoff {
        wait: if at_once(b, connected, current) {
            FIRST_WAIT_MS as int
        } else {
            doubled(b.wait)
        },
        ..b
    }
}

impl Reconnector {
    #[verifier::type_invariant]
    spec fn wf(self) -> bool {
        FIRST_WAIT_MS <= self.wait_ms <= LONGEST_WAIT_MS
    }

    /// Before the first attempt.
    pub fn new() -> (r: Reconnector)
        ensures
            r@ == fresh(),
    {
        Reconnector { generation: u64::MAX, forced: false, wait_ms: FIRST_WAIT_MS }
    }

    /// Begins an attempt at `generation`.
    pub fn begin(&mut self, generation: u64)
        ensures
            final(self)@ == begun(old(self)@, generation),
            valid(final(self)@),
    {
        proof {
            use_type_invariant(&*self);
        }
        self.forced = generation != self.generation;
        if self.forced {
            self.wait_ms = FIRST_WAIT_MS;
        }
        self.generation = generation;
    }

    /// Ends the attempt under way and says how many milliseconds to wait before the next one.
    ///
    /// `connected` tells whether the attempt could be started at all, and `current` is the
    /// generation by now.
    pub fn end(&mut self, connected: bool, current: u64) -> (r: u64)
        ensures
            r == wait_after(old(self)@, connected, current),
            final(self)@ == ended(old(self)@, connected, current),
            valid(final(self)@),
            r == 0 <==> at_once(old(self)@, connected, current),
            r == 0 || FIRST_WAIT_MS <= r <= LONGEST_WAIT_MS,
            r == 0 || 1_000 <= r <= 30_000,
            current != old(self)@.generation ==> r == 0,
    {
        proof {
            use_type_invariant(&*self);
        }
        if current != self.generation || (self.forced && !connected) {
            self.wait_ms = FIRST_WAIT_MS;
            return 0;
        }
        let wait = self.wait_ms;
        let twice: u64 = wait * 2;
        self.wait_ms = if twice > LONGEST_WAIT_MS {
            LONGEST_WAIT_MS
        } else {
            twice
        };
        wait
    }
}

/// After attempts at `generation`, each of which ended while the generation stayed; `connected`
/// tells of each whether it could be started.
pub open spec fn after_ends(b: Backoff, generation: u64, connected: Seq<bool>) -> Backoff
    decreases connected.len(),
{
    if connected.len() == 0 {
        b
    } else {
        ended(
            begun(after_ends(b, generation, connected.drop_last()), generation),
            connected.last(),
            generation,
        )
    }
}

/// The `n`th wait of the series 1 s, 2 s, 4 s and so on, which ends at 30 s.
pub open spec fn series(n: nat) -> int {
    if FIRST_WAIT_MS * pow2(n) > LONGEST_WAIT_MS {
        LONGEST_WAIT_MS as int
    } else {
        FIRST_WAIT_MS * pow2(n)
    }
}

proof fn lemma_series(n: nat)
    ensures
        n == 0 ==> series(n) == FIRST_WAIT_MS,
        series(n + 1) == doubled(series(n)),
        FIRST_WAIT_MS <= series(n) <= LONGEST_WAIT_MS,
{
    vstd::arithmetic::power2::lemma2_to64();
    lemma_pow2_pos(n);
    lemma_pow2_unfold(n + 1);
}

/// The wait after the last of the attempts that `connected` tells of, where the first of them is
/// the first at its generation and the generation stays.
///
/// The waits are 1 s, 2 s, 4 s and so on. Where the first attempt is made at a new generation and
/// cannot be started, nothing is waited for after it, and the series begins with the second.
pub open spec fn wait_in_a_row(forced: bool, connected: Seq<bool>) -> int {
    if forced && !connected[0] {
        if connected.len() == 1 {
            0
        } else {
            series((connected.len() - 2) as nat)
        }
    } else {
        series((connected.len() - 1) as nat)
    }
}

proof fn lemma_after_ends(b: Backoff, generation: u64, connected: Seq<bool>)
    requires
        generation != b.generation || b.wait == FIRST_WAIT_MS,
        connected.len() > 0,
    ensures
        ({
            let forced = generation != b.generation;
            let n = connected.len() - 1;
            let last = begun(after_ends(b, generation, connected.drop_last()), generation);
            &&& last.generation == generation
            &&& last.forced == (forced && n == 0)
            &&& n == 0 ==> last.wait == series(0)
            &&& n > 0 && forced && !connected[0] ==> last.wait == series((n - 1) as nat)
            &&& n > 0 && !(forced && !connected[0]) ==> last.wait == series(n as nat)
        }),
    decreases connected.len(),
{
    lemma_series(0);
    if connected.len() > 1 {
        let before = connected.drop_last();
        lemma_after_ends(b, generation, before);
        lemma_series((connected.len() - 2) as nat);
        if connected.len() > 2 {
            lemma_series((connected.len() - 3) as nat);
        }
    }
}

/// As long as the generation stays, the waits are 1 s, 2 s, 4 s and so on up to 30 s, however the
/// attempts end. Only a first attempt at a new generation that cannot be started is followed by
/// the second one at once.
///
/// It holds of the first attempts of all, at any generation, and of those at every new one.
pub proof fn law_backoff_doubles(b: Backoff, generation: u64, connected: Seq<bool>)
    requires
        b == fresh() || generation != b.generation,
        connected.len() > 0,
    ensures
        wait_after(
            begun(after_ends(b, generation, connected.drop_last()), generation),
            connected.last(),
            generation,
        ) == wait_in_a_row(generation != b.generation, connected),
{
    lemma_after_ends(b, generation, connected);
    lemma_series(0);
}

/// Connections that are lost again and again are followed by waits of 1 s, 2 s, 4 s and so on up
/// to 30 s: the wait after connection number `n`, counted from 0, is the `n`th of the series.
pub proof fn law_drops_back_off(b: Backoff, generation: u64, n: nat)
    requires
        b == fresh() || generation != b.generation,
    ensures
        wait_after(
            begun(after_ends(b, generation, Seq::new(n, |i: int| true)), generation),
            true,
            generation,
        ) == series(n),
{
    let all = Seq::new(n + 1, |i: int| true);
    law_backoff_doubles(b, generation, all);
    assert(all.drop_last() =~= Seq::new(n, |i: int| true));
}

/// An attempt that ends because the generation has changed is followed by the next one at once,
/// and the waits at the new generation begin anew.
pub proof fn law_forced_switch_is_immediate(
    b: Backoff,
    generation: u64,
    connected: bool,
    current: u64,
    later: Seq<bool>,
)
    requires
        current != generation,
        later.len() > 0,
    ensures
        ({
            let switched = ended(begun(b, generation), connected, current);
            &&& wait_after(begun(b, generation), connected, current) == 0
            &&& wait_after(
                begun(after_ends(switched, current, later.drop_last()), current),
                later.last(),
                current,
            ) == wait_in_a_row(true, later)
        }),
{
    law_backoff_doubles(ended(begun(b, generation), connected, current), current, later);
}

/// A subscription that is made to start over is no longer current, and there is no wait before
/// the next one.
pub proof fn law_forced_reconnect(b: Backoff, generation: u64, connected: bool)
    ensures
        next_generation(generation) != generation,
        wait_after(begun(b, generation), connected, next_generation(generation)) == 0,
{
}

/// What the subscription thread does next.
pub enum FeedAction {
    /// Subscribe, and stay subscribed until that ends.
    Connect { profile: String, generation: u64 },
    /// Tell the screen that the subscription has ended.
    Report,
    /// Wait for so many milliseconds.
    Wait(u64),
}

/// What the subscription thread does next, with the profile as characters.
pub enum FeedStep {
    Connect { profile: Seq<char>, generation: u64 },
    Report,
    Wait(int),
}

impl View for FeedAction {
    type V = FeedStep;

    open spec fn view(&self) -> FeedStep {
        match *self {
            FeedAction::Connect { profile, generation } => FeedStep::Connect {
                profile: profile@,
                generation,
            },
            FeedAction::Report => FeedStep::Report,
            FeedAction::Wait(ms) => FeedStep::Wait(ms as int),
        }
    }
}

/// Where the subscription thread stands.
#[derive(Debug, Clone, Copy, PartialEq, Eq, Structural)]
pub enum FeedPhase {
    /// Before an attempt.
    Connecting,
    /// After an attempt that has not been reported.
    Reporting,
    /// After an attempt that has been reported.
    Waiting,
}

/// The subscription thread: `next` says what to do, and is asked again once that is done.
pub struct Feed {
    reconnector: Reconnector,
    phase: FeedPhase,
}

/// The state of the subscription thread.
pub struct FeedState {
    pub backoff: Backoff,
    pub phase: FeedPhase,
}

impl View for Feed {
    type V = FeedState;

    closed spec fn view(&self) -> FeedState {
        FeedState { backoff: self.reconnector@, phase: self.phase }
    }
}

/// What the subscription thread does in state `s`, where the subscription is to be made with
/// `profile` and `generation`, and `connected` tells whether the last attempt could be started.
pub open spec fn feed_step(
    s: FeedState,
    profile: Seq<char>,
    generation: u64,
    connected: bool,
) -> FeedStep {
    match s.phase {
        FeedPhase::Connecting => FeedStep::Connect { profile, generation },
        FeedPhase::Reporting => FeedStep::Report,
        FeedPhase::Waiting => FeedStep::Wait(wait_after(s.backoff, connected, generation)),
    }
}

/// The state after that.
pub open spec fn feed_after(s: FeedState, generation: u64, connected: bool) -> FeedState {
    match s.phase {
        FeedPhase::Connecting => FeedState {
            backoff: begun(s.backoff, generation),
            phase: FeedPhase::Reporting,
        },
        FeedPhase::Reporting => FeedState { backoff: s.backoff, phase: FeedPhase::Waiting },
        FeedPhase::Waiting => FeedState {
            backoff: ended(s.backoff, connected, generation),
            phase: FeedPhase::Connecting,
        },
    }
}

impl Feed {
    /// Before the first attempt.
    pub fn new() -> (r: Feed)
        ensures
            r@ == (FeedState { backoff: fresh(), phase: FeedPhase::Connecting }),
    {
        Feed { reconnector: Reconnector::new(), phase: FeedPhase::Connecting }
    }

    /// Says what to do next.
    ///
    /// `config` is what the subscription is to be made with by now. `connected` tells whether the
    /// last attempt could be started at all; it counts only where a wait is due.
    pub fn next(&mut self, config: &SubConfig, connected: bool) -> (r: FeedAction)
        ensures
            r@ == feed_step(old(self)@, config.profile@, config.generation, connected),
            final(self)@ == feed_after(old(self)@, config.generation, connected),
            r matches FeedAction::Wait(ms) ==> ms == 0 || FIRST_WAIT_MS <= ms <= LONGEST_WAIT_MS,
            r matches FeedAction::Wait(ms) ==> ms == 0 || 1_000 <= ms <= 30_000,
    {
        match self.phase {
            FeedPhase::Connecting => {
                self.reconnector.begin(config.generation);
                self.phase = FeedPhase::Reporting;
                FeedAction::Connect {
                    profile: config.profile.clone(),
                    generation: config.generation,
                }
            },
            FeedPhase::Reporting => {
                self.phase = FeedPhase::Waiting;
                FeedAction::Report
            },
            FeedPhase::Waiting => {
                let ms = self.reconnector.end(connected, config.generation);
                self.phase = FeedPhase::Connecting;
                FeedAction::Wait(ms)
            },
        }
    }
}

/// Each attempt is made with a profile and a generation that belong together, is followed by one
/// report, and that by one wait, of nothing or of 1 s to 30 s, before the next attempt.
///
/// What the subscription is to be made with may change from step to step: `profiles` and
/// `generations` hold it at the attempt, at the report, at the wait and at the next attempt.
pub proof fn law_one_report_per_attempt(
    s: FeedState,
    profiles: Seq<Seq<char>>,
    generations: Seq<u64>,
    connected: bool,
)
    requires
        s.phase is Connecting,
        valid(s.backoff),
        profiles.len() == 4,
        generations.len() == 4,
    ensures
        ({
            let attempted = feed_after(s, generations[0], connected);
            let reported = feed_after(attempted, generations[1], connected);
            let waited = feed_after(reported, generations[2], connected);
            let wait = wait_after(begun(s.backoff, generations[0]), connected, generations[2]);
            &&& feed_step(s, profiles[0], generations[0], connected) == (FeedStep::Connect {
                profile: profiles[0],
                generation: generations[0],
            })
            &&& feed_step(attempted, profiles[1], generations[1], connected) == FeedStep::Report
            &&& feed_step(reported, profiles[2], generations[2], connected) == FeedStep::Wait(wait)
            &&& wait == 0 || FIRST_WAIT_MS <= wait <= LONGEST_WAIT_MS
            &&& feed_step(waited, profiles[3], generations[3], connected) == (FeedStep::Connect {
                profile: profiles[3],
                generation: generations[3],
            })
        }),
{
}

/// The state after one step for each of `steps`: the generation and whether the last attempt
/// could be started.
pub open spec fn feed_after_all(s: FeedState, steps: Seq<(u64, bool)>) -> FeedState
    decreases steps.len(),
{
    if steps.len() == 0 {
        s
    } else {
        feed_after(feed_after_all(s, steps.drop_last()), steps.last().0, steps.last().1)
    }
}

/// Every state that attempts can lead to is valid, so every wait is nothing or 1 s to 30 s,
/// whatever mix of attempts and generations went before.
pub proof fn law_waits_are_bounded(s: FeedState, steps: Seq<(u64, bool)>)
    requires
        valid(s.backoff),
    ensures
        valid(fresh()),
        valid(feed_after_all(s, steps).backoff),
        forall|connected: bool, current: u64|
            {
                let wait = #[trigger] wait_after(
                    feed_after_all(s, steps).backoff,
                    connected,
                    current,
                );
                wait == 0 || FIRST_WAIT_MS <= wait <= LONGEST_WAIT_MS
            },
    decreases steps.len(),
{
    if steps.len() > 0 {
        law_waits_are_bounded(s, steps.drop_last());
    }
}

/// What the reader of the event stream has to say.
pub enum ReaderEvent {
    /// A line came in.
    Line(String),
    /// The stream has ended or broken.
    Ended,
    /// Nothing came in for a while.
    Silent,
    /// The reader itself is gone.
    Gone,
}

/// What to do about it.
pub enum SubscriptionStep {
    /// Read this text as an event and hand it on.
    Deliver(String),
    /// Look again whether the subscription is current, and wait for more.
    Continue,
    /// End the subscription.
    Stop,
}

/// The text of a line without its line ending.
pub open spec fn payload(line: Seq<char>) -> Seq<char> {
    crate::text::without_trailing(crate::text::without_trailing(line, '\n'), '\r')
}

/// Decides what to do about an event of the reader. Lines without text are passed over.
pub fn on_reader_event(event: &ReaderEvent) -> (r: SubscriptionStep)
    ensures
        match *event {
            ReaderEvent::Line(line) => if payload(line@).len() == 0 {
                r is Continue
            } else {
                r matches SubscriptionStep::Deliver(text) && text@ == payload(line@)
            },
            ReaderEvent::Ended => r is Stop,
            ReaderEvent::Silent => r is Continue,
            ReaderEvent::Gone => r is Stop,
        },
{
    match event {
        ReaderEvent::Line(line) => {
            let text = trim_end_of(trim_end_of(line.as_str(), '\n'), '\r');
            if text.is_empty() {
                SubscriptionStep::Continue
            } else {
                SubscriptionStep::Deliver(text.to_string())
            }
        },
        ReaderEvent::Ended => SubscriptionStep::Stop,
        ReaderEvent::Silent => SubscriptionStep::Continue,
        ReaderEvent::Gone => SubscriptionStep::Stop,
    }
}

/// A line carries the same text whichever line ending it has.
pub proof fn law_line_endings_do_not_matter(text: Seq<char>)
    requires
        text.len() > 0 ==> text.last() != '\n' && text.last() != '\r',
    ensures
        payload(text) == text,
        payload(text.push('\n')) == text,
        payload(text.push('\r').push('\n')) == text,
{
    reveal_with_fuel(crate::text::without_trailing, 2);
    let cr = text.push('\r');
    assert(text.push('\n').drop_last() =~= text);
    assert(cr.push('\n').drop_last() =~= cr);
    assert(cr.drop_last() =~= text);
}

/// What became of a text that was to be delivered.
pub enum Delivery {
    /// It was an event and has been handed on.
    Sent,
    /// It could not be read as an event.
    Unreadable,
    /// Nobody is there to take it.
    Refused,
}

/// Decides what follows a delivery: only a missing receiver ends the subscription.
pub fn after_delivery(delivery: &Delivery) -> (r: SubscriptionStep)
    ensures
        r is Stop <==> *delivery is Refused,
        r is Continue <==> !(*delivery is Refused),
{
    match delivery {
        Delivery::Refused => SubscriptionStep::Stop,
        _ => SubscriptionStep::Continue,
    }
}

/// A subscription may be silent for fifteen seconds, and no longer.
pub proof fn law_silence_is_bounded(silent_ms: int)
    ensures
        silent_ms <= 15_000 ==> !stale(silent_ms),
        silent_ms > 15_000 ==> stale(silent_ms),
{
}

/// Generations count up one by one and begin anew behind the largest one.
pub proof fn law_generations_count_up(generation: u64)
    ensures
        generation < u64::MAX ==> next_generation(generation) == generation + 1,
        generation == u64::MAX ==> next_generation(generation) == 0,
{
}

/// As long as the generation stays, each wait is twice the one before, up to thirty seconds; the
/// wait that follows an attempt without one is a second.
///
/// The first of the two attempts ends at the generation `current`, which may be another one.
pub proof fn law_next_wait(
    b: Backoff,
    generation: u64,
    connected: bool,
    current: u64,
    again: bool,
)
    requires
        1_000 <= b.wait <= 30_000,
    ensures
        ({
            let first = wait_after(begun(b, generation), connected, current);
            let second = wait_after(
                begun(ended(begun(b, generation), connected, current), generation),
                again,
                generation,
            );
            &&& first == 0 ==> second == 1_000
            &&& 0 < first <= 15_000 ==> second == 2 * first
            &&& first > 15_000 ==> second == 30_000
            &&& first == 0 || 1_000 <= first <= 30_000
        }),
{
}

/// The first attempt at a new generation is followed by a wait of one second where it could be
/// started, and by none where it could not. An attempt that ends at another generation than it
/// began with is followed by none in any case.
pub proof fn law_first_wait_at_a_generation(
    b: Backoff,
    generation: u64,
    connected: bool,
    current: u64,
)
    ensures
        generation != b.generation ==> wait_after(begun(b, generation), true, generation) == 1_000,
        generation != b.generation ==> wait_after(begun(b, generation), false, generation) == 0,
        generation == b.generation ==> wait_after(begun(b, generation), connected, generation)
            == b.wait,
        current != generation ==> wait_after(begun(b, generation), connected, current) == 0,
        wait_after(begun(fresh(), generation), true, generation) == 1_000,
        generation < u64::MAX ==> wait_after(begun(fresh(), generation), false, generation) == 0,
{
}

/// The waits of the series are one second at first, then twice the one before, up to thirty.
pub proof fn law_series_of_waits(n: nat)
    ensures
        series(0) == 1_000,
        series(n) <= 15_000 ==> series(n + 1) == 2 * series(n),
        series(n) > 15_000 ==> series(n + 1) == 30_000,
{
    lemma_series(0);
    lemma_series(n);
}

/// The waits that the subscription thread takes between attempts at one generation double, up to
/// thirty seconds.
pub proof fn law_feed_waits_double(
    s: FeedState,
    profile: Seq<char>,
    generation: u64,
    connected: bool,
    again: bool,
)
    requires
        s.phase is Connecting,
        1_000 <= s.backoff.wait <= 30_000,
    ensures
        ({
            let reported = feed_after(feed_after(s, generation, connected), generation, connected);
            let waited = feed_after(reported, generation, connected);
            let later = feed_after(feed_after(waited, generation, again), generation, again);
            let first = feed_step(reported, profile, generation, connected);
            let second = feed_step(later, profile, generation, again);
            &&& first is Wait && second is Wait
            &&& first->Wait_0 == 0 ==> second->Wait_0 == 1_000
            &&& 0 < first->Wait_0 <= 15_000 ==> second->Wait_0 == 2 * first->Wait_0
            &&& first->Wait_0 > 15_000 ==> second->Wait_0 == 30_000
            &&& s.backoff.generation != generation && connected ==> first->Wait_0 == 1_000
            &&& s.backoff.generation != generation && !connected ==> first->Wait_0 == 0
        }),
{
}

/// A line carries all its text, and of carriage returns and line feeds at its end nothing.
pub proof fn law_line_carries_its_text(text: Seq<char>, carriage_returns: nat, feeds: nat)
    requires
        text.len() > 0 ==> text.last() != '\r',
        text.len() > 0 && carriage_returns == 0 ==> text.last() != '\n',
    ensures
        payload(
            text + Seq::new(carriage_returns, |i: int| '\r') + Seq::new(feeds, |i: int| '\n'),
        ) == text,
{
    let inner = text + Seq::new(carriage_returns, |i: int| '\r');
    assert(inner.len() > 0 ==> inner.last() != '\n');
    crate::text::law_trim_end_keeps_the_text(inner, '\n', feeds);
    crate::text::law_trim_end_keeps_the_text(text, '\r', carriage_returns);
}

/// What the subscription thread does is seen as it is.
pub proof fn law_steps_are_seen_as_they_are(profile: String, generation: u64, ms: u64)
    ensures
        (FeedAction::Connect { profile, generation })@ == (FeedStep::Connect {
            profile: profile@,
            generation,
        }),
        FeedAction::Report@ == FeedStep::Report,
        FeedAction::Wait(ms)@ == FeedStep::Wait(ms as int),
{
}

} // verus!
