//! The installation driver: interprets the status updates of a streaming
//! install and recognizes terminal success.

use vstd::prelude::*;
use crate::emission::Emission;
use crate::status::StatusValue;

verus! {

/// Where a streaming install stands.
#[derive(Clone, Copy, Debug, PartialEq, Eq, Structural)]
pub enum DriverState {
    /// The install call has not begun.
    Idle,
    /// The install call is under way; updates are heeded.
    Streaming,
    /// An update signalled completion and success was reported.
    Completed,
    /// The install call failed before any completion signal; by policy this
    /// was reported as success too.
    ErroredButReportedSuccess,
}

/// What the installer subsystem tells the driver.
pub enum DriverEvent {
    /// The streaming install call has begun.
    Started,
    /// The device pushed a status update.
    Update(StatusValue),
    /// The install call returned an error.
    CallFailed,
    /// The install call returned without error; updates may still follow.
    CallReturned,
}

impl DriverState {
    /// Whether the driver has reported its one outcome.
    pub open spec fn is_terminal(self) -> bool {
        self == DriverState::Completed || self == DriverState::ErroredButReportedSuccess
    }
}

impl DriverEvent {
    /// Whether this event, met while streaming, ends the install with a
    /// report.
    pub open spec fn is_decisive(self) -> bool {
        match self {
            DriverEvent::Update(update) => update.completes(),
            DriverEvent::CallFailed => true,
            _ => false,
        }
    }
}

/// The state that follows `state` on `event`.
pub open spec fn next_state(state: DriverState, event: DriverEvent) -> DriverState {
    match state {
        DriverState::Idle => match event {
            DriverEvent::Started => DriverState::Streaming,
            _ => DriverState::Idle,
        },
        DriverState::Streaming => match event {
            DriverEvent::Update(update) => if update.completes() {
                DriverState::Completed
            } else {
                DriverState::Streaming
            },
            DriverEvent::CallFailed => DriverState::ErroredButReportedSuccess,
            _ => DriverState::Streaming,
        },
        DriverState::Completed => DriverState::Completed,
        DriverState::ErroredButReportedSuccess => DriverState::ErroredButReportedSuccess,
    }
}

/// The outcome reported when `event` arrives in `state`, if any. Only a
/// streaming driver reports, and what it reports is always success.
pub open spec fn emitted(state: DriverState, event: DriverEvent) -> Option<Emission> {
    if state == DriverState::Streaming && event.is_decisive() {
        Some(Emission::spec_install(true))
    } else {
        None
    }
}

/// The state reached from `state` after `events`, in order.
pub open spec fn state_after(state: DriverState, events: Seq<DriverEvent>) -> DriverState
    decreases events.len(),
{
    if events.len() == 0 {
        state
    } else {
        next_state(state_after(state, events.drop_last()), events.last())
    }
}

/// The outcomes reported from `state` over `events`, in order.
pub open spec fn emissions(state: DriverState, events: Seq<DriverEvent>) -> Seq<Emission>
    decreases events.len(),
{
    if events.len() == 0 {
        Seq::empty()
    } else {
        let before = emissions(state, events.drop_last());
        match emitted(state_after(state, events.drop_last()), events.last()) {
            Some(e) => before.push(e),
            None => before,
        }
    }
}

/// Drives one streaming install. A driver is used for one attempt and then
/// discarded.
pub struct InstallDriver {
    state: DriverState,
}

impl InstallDriver {
    /// The driver's current state.
    pub closed spec fn spec_state(self) -> DriverState {
        self.state
    }

    /// A driver whose install call has not begun.
    pub fn new() -> (driver: InstallDriver)
        ensures
            driver.spec_state() == DriverState::Idle,
    {
        InstallDriver { state: DriverState::Idle }
    }

    /// A driver in the given state.
    pub fn resume(state: DriverState) -> (driver: InstallDriver)
        ensures
            driver.spec_state() == state,
    {
        InstallDriver { state }
    }

    /// Returns the driver's current state.
    pub fn state(&self) -> (state: DriverState)
        ensures
            state == self.spec_state(),
    {
        self.state
    }

    /// Takes one event: moves to the next state and returns the outcome to
    /// report, if this event calls for one.
    pub fn handle(&mut self, event: &DriverEvent) -> (report: Option<Emission>)
        ensures
            final(self).spec_state() == next_state(old(self).spec_state(), *event),
            report == emitted(old(self).spec_state(), *event),
    {
        match self.state {
            DriverState::Idle => {
                if let DriverEvent::Started = event {
                    self.state = DriverState::Streaming;
                }
                None
            },
            DriverState::Streaming => match event {
                DriverEvent::Update(update) => {
                    if update.signals_completion() {
                        self.state = DriverState::Completed;
                        Some(Emission::install(true))
                    } else {
                        None
                    }
                },
                DriverEvent::CallFailed => {
                    self.state = DriverState::ErroredButReportedSuccess;
                    Some(Emission::install(true))
                },
                _ => None,
            },
            DriverState::Completed => None,
            DriverState::ErroredButReportedSuccess => None,
        }
    }

    /// Takes a run of events in order and returns every outcome reported
    /// along the way.
    pub fn run(&mut self, events: &Vec<DriverEvent>) -> (reports: Vec<Emission>)
        ensures
            final(self).spec_state() == state_after(old(self).spec_state(), events@),
            reports@ == emissions(old(self).spec_state(), events@),
    {
        let mut reports: Vec<Emission> = Vec::new();
        let mut i: usize = 0;
        while i < events.len()
            invariant
                i <= events.len(),
                self.spec_state() == state_after(old(self).spec_state(), events@.take(i as int)),
                reports@ == emissions(old(self).spec_state(), events@.take(i as int)),
            decreases events.len() - i,
        {
            proof {
                let upto = events@.take(i + 1);
                assert(upto.drop_last() =~= events@.take(i as int));
                assert(upto.last() == events@[i as int]);
            }
            if let Some(e) = self.handle(&events[i]) {
                reports.push(e);
            }
            i += 1;
        }
        proof {
            assert(events@.take(i as int) =~= events@);
        }
        reports
    }
}

/// The events that carry the given status updates, one each, in order.
pub open spec fn update_events(updates: Seq<StatusValue>) -> Seq<DriverEvent> {
    Seq::new(updates.len(), |i: int| DriverEvent::Update(updates[i]))
}

/// A driver that has reported stays where it is and reports nothing more,
/// whatever arrives.
pub proof fn lemma_terminal_is_silent(state: DriverState, events: Seq<DriverEvent>)
    requires
        state.is_terminal(),
    ensures
        state_after(state, events) == state,
        emissions(state, events).len() == 0,
    decreases events.len(),
{
    if events.len() > 0 {
        lemma_terminal_is_silent(state, events.drop_last());
    }
}

/// While no decisive event arrives, a streaming driver keeps streaming and
/// reports nothing.
pub proof fn lemma_quiet_while_streaming(events: Seq<DriverEvent>)
    requires
        forall|i: int| 0 <= i < events.len() ==> !(#[trigger] events[i]).is_decisive(),
    ensures
        state_after(DriverState::Streaming, events) == DriverState::Streaming,
        emissions(DriverState::Streaming, events).len() == 0,
    decreases events.len(),
{
    if events.len() > 0 {
        let before = events.drop_last();
        assert forall|i: int| 0 <= i < before.len() implies !(#[trigger] before[i]).is_decisive() by {
            assert(before[i] == events[i]);
        }
        lemma_quiet_while_streaming(before);
    }
}

/// Over any run of events, from any state, the driver reports at most once;
/// what it reports is success on the install channel; and it has reported
/// exactly when the run took it into a terminal state.
pub proof fn lemma_reports_at_most_once(state: DriverState, events: Seq<DriverEvent>)
    ensures
        emissions(state, events).len() <= 1,
        forall|i: int|
            0 <= i < emissions(state, events).len() ==> #[trigger] emissions(state, events)[i]
                == Emission::spec_install(true),
        emissions(state, events).len() == 1 <==> !state.is_terminal() && state_after(
            state,
            events,
        ).is_terminal(),
    decreases events.len(),
{
    if state.is_terminal() {
        lemma_terminal_is_silent(state, events);
    } else if events.len() > 0 {
        lemma_reports_at_most_once(state, events.drop_last());
    }
}

/// The report comes with the first decisive event and never earlier: if the
/// event at position `k` is the first decisive one, a streaming driver has
/// reported nothing before it, reports success on it, and nothing after it.
pub proof fn lemma_first_decisive_event_reports(events: Seq<DriverEvent>, k: int)
    requires
        0 <= k < events.len(),
        forall|i: int| 0 <= i < k ==> !(#[trigger] events[i]).is_decisive(),
        events[k].is_decisive(),
    ensures
        emissions(DriverState::Streaming, events.take(k)).len() == 0,
        emissions(DriverState::Streaming, events.take(k + 1)) == seq![Emission::spec_install(true)],
        emissions(DriverState::Streaming, events) == seq![Emission::spec_install(true)],
        state_after(DriverState::Streaming, events).is_terminal(),
{
    let head = events.take(k);
    let upto = events.take(k + 1);
    assert forall|i: int| 0 <= i < head.len() implies !(#[trigger] head[i]).is_decisive() by {
        assert(head[i] == events[i]);
    }
    lemma_quiet_while_streaming(head);
    assert(upto.drop_last() =~= head);
    assert(upto.last() == events[k]);
    assert(emissions(DriverState::Streaming, upto) =~= seq![Emission::spec_install(true)]);
    assert(state_after(DriverState::Streaming, upto).is_terminal());
    lemma_run_extends(DriverState::Streaming, events, k + 1);
    lemma_terminal_is_silent(state_after(DriverState::Streaming, upto), events.skip(k + 1));
    assert(emissions(DriverState::Streaming, events) =~= emissions(DriverState::Streaming, upto));
}

/// A run of events can be cut at any point: the state and the reports of the
/// whole are those of the first part, continued from where it ended.
pub proof fn lemma_run_extends(state: DriverState, events: Seq<DriverEvent>, cut: int)
    requires
        0 <= cut <= events.len(),
    ensures
        state_after(state, events) == state_after(
            state_after(state, events.take(cut)),
            events.skip(cut),
        ),
        emissions(state, events) == emissions(state, events.take(cut)) + emissions(
            state_after(state, events.take(cut)),
            events.skip(cut),
        ),
    decreases events.len(),
{
    if cut == events.len() {
        assert(events.take(cut) =~= events);
        assert(events.skip(cut) =~= Seq::<DriverEvent>::empty());
        assert(emissions(state, events) =~= emissions(state, events) + Seq::<Emission>::empty());
    } else {
        let before = events.drop_last();
        lemma_run_extends(state, before, cut);
        assert(before.take(cut) =~= events.take(cut));
        assert(events.skip(cut).drop_last() =~= before.skip(cut));
        assert(events.skip(cut).last() == events.last());
        let mid = state_after(state, events.take(cut));
        let first = emissions(state, events.take(cut));
        let rest = emissions(mid, before.skip(cut));
        match emitted(state_after(state, before), events.last()) {
            Some(e) => {
                assert((first + rest).push(e) =~= first + rest.push(e));
            },
            None => {},
        }
    }
}

/// Completion detection: when only the last of a run of status updates
/// signals completion, a streaming driver reports success exactly once, with
/// that last update, and has reported nothing after any shorter prefix.
pub proof fn lemma_completion_reported_with_last_update(updates: Seq<StatusValue>)
    requires
        updates.len() > 0,
        forall|i: int| 0 <= i < updates.len() - 1 ==> !(#[trigger] updates[i]).completes(),
        updates.last().completes(),
    ensures
        emissions(DriverState::Streaming, update_events(updates)) == seq![
            Emission::spec_install(true),
        ],
        forall|n: int|
            0 <= n < updates.len() ==> (#[trigger] emissions(
                DriverState::Streaming,
                update_events(updates).take(n),
            )).len() == 0,
        state_after(DriverState::Streaming, update_events(updates)) == DriverState::Completed,
{
    let events = update_events(updates);
    let last = updates.len() - 1;
    lemma_first_decisive_event_reports(events, last);
    assert forall|n: int| 0 <= n < updates.len() implies (#[trigger] emissions(
        DriverState::Streaming,
        events.take(n),
    )).len() == 0 by {
        let head = events.take(n);
        assert forall|i: int| 0 <= i < head.len() implies !(#[trigger] head[i]).is_decisive() by {
            assert(head[i] == events[i]);
        }
        lemma_quiet_while_streaming(head);
    }
    let head = events.take(last);
    assert forall|i: int| 0 <= i < head.len() implies !(#[trigger] head[i]).is_decisive() by {
        assert(head[i] == events[i]);
    }
    lemma_quiet_while_streaming(head);
    assert(events.drop_last() =~= head);
    assert(events.last() == events[last]);
}

} // verus!
