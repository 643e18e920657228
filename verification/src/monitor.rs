//! The outcome monitor: watches the device's diagnostic log for the line
//! that shows the installed configuration took effect, racing a timeout.

use vstd::prelude::*;
use crate::emission::Emission;

verus! {

/// A compiled pattern of the `regex` crate. Opaque here: it is built, handed
/// on and applied, never inspected.
#[verifier::external_type_specification]
#[verifier::external_body]
pub struct ExRegex(regex::Regex);

/// Whether `regex::Regex::new` accepts `pattern`.
pub uninterp spec fn pattern_compiles(pattern: Seq<char>) -> bool;

/// Whether the regex compiled from `pattern` matches anywhere in `line`, as
/// `regex::Regex::is_match` tells.
pub uninterp spec fn pattern_matches(pattern: Seq<char>, line: Seq<char>) -> bool;

/// A pattern filter for log lines: a pattern and the regex compiled from it.
pub struct LineFilter {
    pattern: String,
    compiled: regex::Regex,
}

/// Compiles `pattern` with `regex::Regex::new` and keeps the pattern beside
/// the regex. The contract claims that whether the pattern compiles depends
/// on the pattern alone, and that an error of the compiler gives `None`.
#[verifier::external_body]
fn compile_filter(pattern: &str) -> (built: Option<LineFilter>)
    ensures
        built is Some <==> pattern_compiles(pattern@),
        built matches Some(filter) ==> filter.spec_pattern() == pattern@,
{
    let compiled = regex::Regex::new(pattern).ok()?;
    Some(LineFilter { pattern: pattern.to_owned(), compiled })
}

/// Applies the filter's regex to a line with `regex::Regex::is_match`. The
/// contract claims that the answer depends on the pattern and the line alone.
#[verifier::external_body]
fn filter_matches(filter: &LineFilter, line: &str) -> (found: bool)
    ensures
        found == pattern_matches(filter.spec_pattern(), line@),
{
    filter.compiled.is_match(line)
}

impl LineFilter {
    /// The pattern that this filter was built from.
    pub closed spec fn spec_pattern(self) -> Seq<char> {
        self.pattern@
    }

    /// The regex that this filter holds.
    pub closed spec fn spec_compiled(self) -> regex::Regex {
        self.compiled
    }

    /// Builds the filter for `pattern`; fails where the pattern does not
    /// compile.
    pub fn build(pattern: &str) -> (built: Result<LineFilter, MonitorError>)
        ensures
            built is Ok <==> pattern_compiles(pattern@),
            built matches Ok(filter) ==> filter.spec_pattern() == pattern@,
            built matches Err(e) ==> e == MonitorError::FilterConstructionFailure,
    {
        match compile_filter(pattern) {
            Some(filter) => Ok(filter),
            None => Err(MonitorError::FilterConstructionFailure),
        }
    }

    /// Returns the pattern that this filter was built from.
    pub fn pattern(&self) -> (text: &str)
        ensures
            text@ == self.spec_pattern(),
    {
        self.pattern.as_str()
    }

    /// Gives up the filter for its regex, to hand it to a log client.
    pub fn into_regex(self) -> (compiled: regex::Regex)
        ensures
            compiled == self.spec_compiled(),
    {
        self.compiled
    }
}

/// The seconds a watch waits for the success line unless told otherwise.
pub const DEFAULT_TIMEOUT_SECS: u64 = 40;

/// The pattern of the log line that shows the carrier configuration is
/// active; case is ignored.
pub open spec fn success_pattern_text() -> Seq<char> {
    "(?i)\\b\\w*SIM is Ready\\w*\\b"@
}

/// Returns the pattern of the log line that shows the carrier configuration
/// is active; case is ignored.
pub fn success_pattern() -> (pattern: &'static str)
    ensures
        pattern@ == success_pattern_text(),
{
    "(?i)\\b\\w*SIM is Ready\\w*\\b"
}

/// Why a watch ended without success.
#[derive(Clone, Copy, Debug, PartialEq, Eq, Structural)]
pub enum MonitorError {
    /// No device is attached.
    DeviceNotFound,
    /// The pattern filter could not be built.
    FilterConstructionFailure,
    /// The log stream could not be attached or broke off.
    LogStreamFailure,
    /// The timeout elapsed before a matching line appeared.
    Timeout,
}

/// Where a watch stands.
#[derive(Clone, Copy, Debug, PartialEq, Eq, Structural)]
pub enum MonitorState {
    /// The device has not been looked up yet.
    AwaitingDevice,
    /// The one-shot filter is attached and the timeout is running.
    Watching,
    /// A matching line appeared in time; success was reported.
    Succeeded,
    /// The watch ended otherwise; failure was reported.
    Failed(MonitorError),
}

/// What the surroundings tell the monitor.
#[derive(Clone, Copy, Debug, PartialEq, Eq, Structural)]
pub enum MonitorEvent {
    /// The device query found no device.
    DeviceMissing,
    /// The device query found a device.
    DeviceFound,
    /// The log stream emitted a line that the filter matched.
    Matched,
    /// The timeout elapsed.
    TimedOut,
    /// Attaching to the log stream failed, or the stream broke off.
    StreamFailed,
}

/// The watch that the monitor asks its surroundings to start: a one-shot
/// filter over the whole log stream, raced against a timeout.
pub struct WatchRequest {
    /// The filter to attach.
    pub filter: LineFilter,
    /// The seconds after which the watch gives up.
    pub timeout_secs: u64,
}

/// What the monitor asks of its surroundings in answer to an event.
pub enum MonitorAction {
    /// Nothing.
    Idle,
    /// Start the watch.
    Watch(WatchRequest),
    /// Deliver this outcome to the notification sink.
    Report(Emission),
}

impl MonitorState {
    /// Whether the watch has ended, and so has reported its one outcome.
    pub open spec fn is_final(self) -> bool {
        self == MonitorState::Succeeded || self is Failed
    }
}

impl MonitorAction {
    /// The outcome that this action delivers, if it delivers one.
    pub open spec fn report(self) -> Option<Emission> {
        match self {
            MonitorAction::Report(e) => Some(e),
            _ => None,
        }
    }
}

/// The state that follows `state` on `event`. `filter_ok` tells whether the
/// pattern filter can be built; it matters only when the device is found.
pub open spec fn monitor_next(state: MonitorState, event: MonitorEvent, filter_ok: bool)
    -> MonitorState {
    match state {
        MonitorState::AwaitingDevice => match event {
            MonitorEvent::DeviceMissing => MonitorState::Failed(MonitorError::DeviceNotFound),
            MonitorEvent::DeviceFound => if filter_ok {
                MonitorState::Watching
            } else {
                MonitorState::Failed(MonitorError::FilterConstructionFailure)
            },
            _ => MonitorState::AwaitingDevice,
        },
        MonitorState::Watching => match event {
            MonitorEvent::Matched => MonitorState::Succeeded,
            MonitorEvent::TimedOut => MonitorState::Failed(MonitorError::Timeout),
            MonitorEvent::StreamFailed => MonitorState::Failed(MonitorError::LogStreamFailure),
            _ => MonitorState::Watching,
        },
        _ => state,
    }
}

/// The outcome reported when `event` arrives in `state`, if any: the step
/// that ends the watch reports, `true` for success and `false` otherwise.
pub open spec fn monitor_report(state: MonitorState, event: MonitorEvent, filter_ok: bool)
    -> Option<Emission> {
    let next = monitor_next(state, event, filter_ok);
    if !state.is_final() && next.is_final() {
        Some(Emission::spec_verification(next == MonitorState::Succeeded))
    } else {
        None
    }
}

/// Watches for the outcome of one installation. A monitor is used for one
/// watch and then discarded.
pub struct OutcomeMonitor {
    state: MonitorState,
    timeout_secs: u64,
}

impl OutcomeMonitor {
    /// The monitor's current state.
    pub closed spec fn spec_state(self) -> MonitorState {
        self.state
    }

    /// The seconds after which this monitor's watch gives up.
    pub closed spec fn spec_timeout_secs(self) -> u64 {
        self.timeout_secs
    }

    /// A monitor with the default timeout, before the device lookup.
    pub fn new() -> (monitor: OutcomeMonitor)
        ensures
            monitor.spec_state() == MonitorState::AwaitingDevice,
            monitor.spec_timeout_secs() == DEFAULT_TIMEOUT_SECS,
    {
        OutcomeMonitor { state: MonitorState::AwaitingDevice, timeout_secs: DEFAULT_TIMEOUT_SECS }
    }

    /// A monitor with the given timeout, before the device lookup.
    pub fn with_timeout(timeout_secs: u64) -> (monitor: OutcomeMonitor)
        ensures
            monitor.spec_state() == MonitorState::AwaitingDevice,
            monitor.spec_timeout_secs() == timeout_secs,
    {
        OutcomeMonitor { state: MonitorState::AwaitingDevice, timeout_secs }
    }

    /// Returns the monitor's current state.
    pub fn state(&self) -> (state: MonitorState)
        ensures
            state == self.spec_state(),
    {
        self.state
    }

    /// Returns the seconds after which this monitor's watch gives up.
    pub fn timeout_secs(&self) -> (secs: u64)
        ensures
            secs == self.spec_timeout_secs(),
    {
        self.timeout_secs
    }

    /// Ends the watch in `next` and returns the report of that outcome.
    fn finish(&mut self, next: MonitorState) -> (action: MonitorAction)
        requires
            !old(self).spec_state().is_final(),
            next.is_final(),
        ensures
            final(self).spec_state() == next,
            final(self).spec_timeout_secs() == old(self).spec_timeout_secs(),
            action == MonitorAction::Report(Emission::spec_verification(next == MonitorState::Succeeded)),
    {
        self.state = next;
        match next {
            MonitorState::Succeeded => MonitorAction::Report(Emission::verification(true)),
            _ => MonitorAction::Report(Emission::verification(false)),
        }
    }

    /// Takes the result of building the pattern filter once the device is
    /// found. A monitor that awaits its device starts watching with the
    /// filter, or reports failure where there is none; any other monitor
    /// stays as it is.
    pub fn filter_built(&mut self, built: Result<LineFilter, MonitorError>) -> (action:
        MonitorAction)
        ensures
            final(self).spec_timeout_secs() == old(self).spec_timeout_secs(),
            final(self).spec_state() == monitor_next(
                old(self).spec_state(),
                MonitorEvent::DeviceFound,
                built is Ok,
            ),
            action.report() == monitor_report(
                old(self).spec_state(),
                MonitorEvent::DeviceFound,
                built is Ok,
            ),
            old(self).spec_state() == MonitorState::AwaitingDevice && built is Ok ==> action
                == MonitorAction::Watch(
                WatchRequest { filter: built->Ok_0, timeout_secs: old(self).spec_timeout_secs() },
            ),
            !(old(self).spec_state() == MonitorState::AwaitingDevice && built is Ok) ==> !(action
                is Watch),
            action is Idle <==> old(self).spec_state() != MonitorState::AwaitingDevice,
    {
        match self.state {
            MonitorState::AwaitingDevice => match built {
                Ok(filter) => {
                    self.state = MonitorState::Watching;
                    MonitorAction::Watch(WatchRequest { filter, timeout_secs: self.timeout_secs })
                },
                Err(_) => self.finish(
                    MonitorState::Failed(MonitorError::FilterConstructionFailure),
                ),
            },
            _ => MonitorAction::Idle,
        }
    }

    /// Takes a line of the log stream during the watch and applies the
    /// filter to it. The filter is one-shot: only a watching monitor looks
    /// at the line, and the first line that matches ends the watch with a
    /// report of success.
    pub fn observe_line(&mut self, filter: &LineFilter, line: &str) -> (action: MonitorAction)
        ensures
            final(self).spec_timeout_secs() == old(self).spec_timeout_secs(),
            final(self).spec_state() == line_next(
                old(self).spec_state(),
                pattern_matches(filter.spec_pattern(), line@),
            ),
            action.report() == line_report(
                old(self).spec_state(),
                pattern_matches(filter.spec_pattern(), line@),
            ),
            !(action is Watch),
    {
        match self.state {
            MonitorState::Watching => {
                let matched = filter_matches(filter, line);
                self.line_examined(matched)
            },
            _ => MonitorAction::Idle,
        }
    }

    /// Takes the filter's verdict on one line of the log stream. A match
    /// counts as the event that the filter fired: it ends a watch that is
    /// under way with a report of success, and changes nothing otherwise. A
    /// line that does not match changes nothing.
    pub fn line_examined(&mut self, matched: bool) -> (action: MonitorAction)
        ensures
            final(self).spec_timeout_secs() == old(self).spec_timeout_secs(),
            final(self).spec_state() == line_next(old(self).spec_state(), matched),
            action.report() == line_report(old(self).spec_state(), matched),
            !(action is Watch),
    {
        match self.state {
            MonitorState::Watching => {
                if matched {
                    self.finish(MonitorState::Succeeded)
                } else {
                    MonitorAction::Idle
                }
            },
            _ => MonitorAction::Idle,
        }
    }
}

/// The state after the filter has been put to a line of the log: a line that
/// matched is the event `Matched`, any other line leaves the state as it is.
pub open spec fn line_next(state: MonitorState, matched: bool) -> MonitorState {
    if matched {
        monitor_next(state, MonitorEvent::Matched, true)
    } else {
        state
    }
}

/// The outcome reported after the filter has been put to a line of the log,
/// if any: that of the event `Matched` where the line matched.
pub open spec fn line_report(state: MonitorState, matched: bool) -> Option<Emission> {
    if matched {
        monitor_report(state, MonitorEvent::Matched, true)
    } else {
        None
    }
}

/// Takes one event of a watch: moves the monitor to its next state and
/// returns what to do. When the device is found the filter for the success
/// pattern is built here: the watch starts with it, or failure is reported
/// where the pattern does not compile.
pub fn check_installing_succeed(monitor: &mut OutcomeMonitor, event: MonitorEvent) -> (action:
    MonitorAction)
    ensures
        final(monitor).spec_timeout_secs() == old(monitor).spec_timeout_secs(),
        final(monitor).spec_state() == monitor_next(
            old(monitor).spec_state(),
            event,
            pattern_compiles(success_pattern_text()),
        ),
        action.report() == monitor_report(
            old(monitor).spec_state(),
            event,
            pattern_compiles(success_pattern_text()),
        ),
        action matches MonitorAction::Watch(request) ==> request.timeout_secs == old(
            monitor,
        ).spec_timeout_secs() && request.filter.spec_pattern() == success_pattern_text(),
        action is Watch <==> old(monitor).spec_state() == MonitorState::AwaitingDevice
            && final(monitor).spec_state() == MonitorState::Watching,
        action is Idle <==> final(monitor).spec_state() == old(monitor).spec_state(),
{
    match event {
        MonitorEvent::DeviceFound => {
            let built = LineFilter::build(success_pattern());
            monitor.filter_built(built)
        },
        _ => {
            let next = match (monitor.state, event) {
                (MonitorState::AwaitingDevice, MonitorEvent::DeviceMissing) => MonitorState::Failed(
                    MonitorError::DeviceNotFound,
                ),
                (MonitorState::Watching, MonitorEvent::Matched) => MonitorState::Succeeded,
                (MonitorState::Watching, MonitorEvent::TimedOut) => MonitorState::Failed(
                    MonitorError::Timeout,
                ),
                (MonitorState::Watching, MonitorEvent::StreamFailed) => MonitorState::Failed(
                    MonitorError::LogStreamFailure,
                ),
                (state, _) => state,
            };
            if next == monitor.state {
                MonitorAction::Idle
            } else {
                monitor.finish(next)
            }
        },
    }
}

impl MonitorEvent {
    /// Whether this event ends a watch that is under way.
    pub open spec fn ends_watch(self) -> bool {
        self == MonitorEvent::Matched || self == MonitorEvent::TimedOut || self
            == MonitorEvent::StreamFailed
    }
}

/// The state reached from `state` after `events`, in order.
pub open spec fn monitor_state_after(
    state: MonitorState,
    events: Seq<MonitorEvent>,
    filter_ok: bool,
) -> MonitorState
    decreases events.len(),
{
    if events.len() == 0 {
        state
    } else {
        monitor_next(
            monitor_state_after(state, events.drop_last(), filter_ok),
            events.last(),
            filter_ok,
        )
    }
}

/// The outcomes reported from `state` over `events`, in order.
pub open spec fn monitor_reports(state: MonitorState, events: Seq<MonitorEvent>, filter_ok: bool)
    -> Seq<Emission>
    decreases events.len(),
{
    if events.len() == 0 {
        Seq::empty()
    } else {
        let before = monitor_reports(state, events.drop_last(), filter_ok);
        match monitor_report(
            monitor_state_after(state, events.drop_last(), filter_ok),
            events.last(),
            filter_ok,
        ) {
            Some(e) => before.push(e),
            None => before,
        }
    }
}

/// A watch that has ended stays ended and reports nothing more, whatever
/// arrives.
pub proof fn lemma_ended_watch_is_silent(
    state: MonitorState,
    events: Seq<MonitorEvent>,
    filter_ok: bool,
)
    requires
        state.is_final(),
    ensures
        monitor_state_after(state, events, filter_ok) == state,
        monitor_reports(state, events, filter_ok).len() == 0,
    decreases events.len(),
{
    if events.len() > 0 {
        lemma_ended_watch_is_silent(state, events.drop_last(), filter_ok);
    }
}

/// Exactly-once delivery: over any run of events, from any state, the
/// monitor reports at most once, always on the verification channel, and it
/// has reported exactly when the run ended the watch.
pub proof fn lemma_monitor_reports_at_most_once(
    state: MonitorState,
    events: Seq<MonitorEvent>,
    filter_ok: bool,
)
    ensures
        monitor_reports(state, events, filter_ok).len() <= 1,
        forall|i: int|
            0 <= i < monitor_reports(state, events, filter_ok).len() ==> (#[trigger] monitor_reports(
                state,
                events,
                filter_ok,
            )[i]) == Emission::spec_verification(
                monitor_state_after(state, events, filter_ok) == MonitorState::Succeeded,
            ),
        monitor_reports(state, events, filter_ok).len() == 1 <==> !state.is_final()
            && monitor_state_after(state, events, filter_ok).is_final(),
    decreases events.len(),
{
    if state.is_final() {
        lemma_ended_watch_is_silent(state, events, filter_ok);
    } else if events.len() > 0 {
        let before = events.drop_last();
        lemma_monitor_reports_at_most_once(state, before, filter_ok);
        let mid = monitor_state_after(state, before, filter_ok);
        if mid.is_final() {
            assert(monitor_next(mid, events.last(), filter_ok) == mid);
        }
    }
}

/// A run of events can be cut at any point: the state and the reports of the
/// whole are those of the first part, continued from where it ended.
pub proof fn lemma_monitor_run_splits(
    state: MonitorState,
    events: Seq<MonitorEvent>,
    cut: int,
    filter_ok: bool,
)
    requires
        0 <= cut <= events.len(),
    ensures
        monitor_state_after(state, events, filter_ok) == monitor_state_after(
            monitor_state_after(state, events.take(cut), filter_ok),
            events.skip(cut),
            filter_ok,
        ),
        monitor_reports(state, events, filter_ok) == monitor_reports(
            state,
            events.take(cut),
            filter_ok,
        ) + monitor_reports(
            monitor_state_after(state, events.take(cut), filter_ok),
            events.skip(cut),
            filter_ok,
        ),
    decreases events.len(),
{
    if cut == events.len() {
        assert(events.take(cut) =~= events);
        assert(events.skip(cut) =~= Seq::<MonitorEvent>::empty());
        assert(monitor_reports(state, events, filter_ok) =~= monitor_reports(
            state,
            events,
            filter_ok,
        ) + Seq::<Emission>::empty());
    } else {
        let before = events.drop_last();
        lemma_monitor_run_splits(state, before, cut, filter_ok);
        assert(before.take(cut) =~= events.take(cut));
        assert(events.skip(cut).drop_last() =~= before.skip(cut));
        assert(events.skip(cut).last() == events.last());
        let mid = monitor_state_after(state, events.take(cut), filter_ok);
        let first = monitor_reports(state, events.take(cut), filter_ok);
        let rest = monitor_reports(mid, before.skip(cut), filter_ok);
        match monitor_report(monitor_state_after(state, before, filter_ok), events.last(), filter_ok) {
            Some(e) => {
                assert((first + rest).push(e) =~= first + rest.push(e));
            },
            None => {},
        }
    }
}

/// While nothing arrives that ends it, a watch goes on and reports nothing.
pub proof fn lemma_watch_goes_on(events: Seq<MonitorEvent>, filter_ok: bool)
    requires
        forall|i: int| 0 <= i < events.len() ==> !(#[trigger] events[i]).ends_watch(),
    ensures
        monitor_state_after(MonitorState::Watching, events, filter_ok) == MonitorState::Watching,
        monitor_reports(MonitorState::Watching, events, filter_ok).len() == 0,
    decreases events.len(),
{
    if events.len() > 0 {
        let before = events.drop_last();
        assert forall|i: int| 0 <= i < before.len() implies !(#[trigger] before[i]).ends_watch() by {
            assert(before[i] == events[i]);
        }
        lemma_watch_goes_on(before, filter_ok);
    }
}

/// The race has one winner: the first event that ends the watch decides the
/// outcome. Nothing is reported before it; with it, `true` is reported if it
/// is a match and `false` otherwise; and nothing that follows, whether a
/// match, a timeout or a failure, is reported.
pub proof fn lemma_first_ending_event_decides(events: Seq<MonitorEvent>, k: int, filter_ok: bool)
    requires
        0 <= k < events.len(),
        forall|i: int| 0 <= i < k ==> !(#[trigger] events[i]).ends_watch(),
        events[k].ends_watch(),
    ensures
        monitor_reports(MonitorState::Watching, events.take(k), filter_ok).len() == 0,
        monitor_reports(MonitorState::Watching, events.take(k + 1), filter_ok) == seq![
            Emission::spec_verification(events[k] == MonitorEvent::Matched),
        ],
        monitor_reports(MonitorState::Watching, events, filter_ok) == seq![
            Emission::spec_verification(events[k] == MonitorEvent::Matched),
        ],
{
    let head = events.take(k);
    let upto = events.take(k + 1);
    assert forall|i: int| 0 <= i < head.len() implies !(#[trigger] head[i]).ends_watch() by {
        assert(head[i] == events[i]);
    }
    lemma_watch_goes_on(head, filter_ok);
    assert(upto.drop_last() =~= head);
    assert(upto.last() == events[k]);
    assert(monitor_reports(MonitorState::Watching, upto, filter_ok) =~= seq![
        Emission::spec_verification(events[k] == MonitorEvent::Matched),
    ]);
    let mid = monitor_state_after(MonitorState::Watching, upto, filter_ok);
    assert(mid.is_final());
    lemma_monitor_run_splits(MonitorState::Watching, events, k + 1, filter_ok);
    lemma_ended_watch_is_silent(mid, events.skip(k + 1), filter_ok);
    assert(monitor_reports(MonitorState::Watching, events, filter_ok) =~= monitor_reports(
        MonitorState::Watching,
        upto,
        filter_ok,
    ));
}

/// One-shot filter: when two lines match, at positions `first` and `second`,
/// and nothing ended the watch before the first, success is reported exactly
/// once, with the first match.
pub proof fn lemma_second_match_is_not_reported(
    events: Seq<MonitorEvent>,
    first: int,
    second: int,
    filter_ok: bool,
)
    requires
        0 <= first < second < events.len(),
        forall|i: int| 0 <= i < first ==> !(#[trigger] events[i]).ends_watch(),
        events[first] == MonitorEvent::Matched,
        events[second] == MonitorEvent::Matched,
    ensures
        monitor_reports(MonitorState::Watching, events, filter_ok) == seq![
            Emission::spec_verification(true),
        ],
        monitor_reports(MonitorState::Watching, events.take(first + 1), filter_ok)
            == monitor_reports(MonitorState::Watching, events, filter_ok),
{
    lemma_first_ending_event_decides(events, first, filter_ok);
}

/// Timeout race: when the timeout is the first event to end the watch, at
/// position `k`, failure is reported exactly once, not before the timeout,
/// and no match that arrives later is reported.
pub proof fn lemma_timeout_beats_late_match(events: Seq<MonitorEvent>, k: int, filter_ok: bool)
    requires
        0 <= k < events.len(),
        forall|i: int| 0 <= i < k ==> !(#[trigger] events[i]).ends_watch(),
        events[k] == MonitorEvent::TimedOut,
    ensures
        monitor_reports(MonitorState::Watching, events.take(k), filter_ok).len() == 0,
        monitor_reports(MonitorState::Watching, events, filter_ok) == seq![
            Emission::spec_verification(false),
        ],
{
    lemma_first_ending_event_decides(events, k, filter_ok);
}

} // verus!
