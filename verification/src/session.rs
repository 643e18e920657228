//! Installing and watching at once: the installation driver and the outcome
//! monitor run side by side on the same device and share no state.

use vstd::prelude::*;
use crate::driver::{emissions, emitted, next_state, state_after, DriverEvent, DriverState};
use crate::emission::{Emission, EventName};
use crate::monitor::{
    monitor_next,
    monitor_report,
    monitor_reports,
    monitor_state_after,
    MonitorEvent,
    MonitorState,
};

verus! {

/// Something that arrives while both components are at work, addressed to
/// one of them.
pub enum Signal {
    /// For the installation driver.
    Installer(DriverEvent),
    /// For the outcome monitor.
    Log(MonitorEvent),
}

/// The states of the two components, side by side.
pub struct SessionState {
    pub driver: DriverState,
    pub monitor: MonitorState,
}

/// The states after `signal`: the component it is addressed to takes its
/// step, the other stays as it is.
pub open spec fn session_next(state: SessionState, signal: Signal, filter_ok: bool)
    -> SessionState {
    match signal {
        Signal::Installer(event) => SessionState {
            driver: next_state(state.driver, event),
            monitor: state.monitor,
        },
        Signal::Log(event) => SessionState {
            driver: state.driver,
            monitor: monitor_next(state.monitor, event, filter_ok),
        },
    }
}

/// The outcome reported on `signal`, if any: that of the component it is
/// addressed to.
pub open spec fn session_report(state: SessionState, signal: Signal, filter_ok: bool) -> Option<
    Emission,
> {
    match signal {
        Signal::Installer(event) => emitted(state.driver, event),
        Signal::Log(event) => monitor_report(state.monitor, event, filter_ok),
    }
}

/// The states reached after `signals`, in the order in which they arrive.
pub open spec fn session_after(state: SessionState, signals: Seq<Signal>, filter_ok: bool)
    -> SessionState
    decreases signals.len(),
{
    if signals.len() == 0 {
        state
    } else {
        session_next(
            session_after(state, signals.drop_last(), filter_ok),
            signals.last(),
            filter_ok,
        )
    }
}

/// The outcomes reported over `signals`, in the order in which they are
/// reported.
pub open spec fn session_reports(state: SessionState, signals: Seq<Signal>, filter_ok: bool)
    -> Seq<Emission>
    decreases signals.len(),
{
    if signals.len() == 0 {
        Seq::empty()
    } else {
        let before = session_reports(state, signals.drop_last(), filter_ok);
        match session_report(
            session_after(state, signals.drop_last(), filter_ok),
            signals.last(),
            filter_ok,
        ) {
            Some(e) => before.push(e),
            None => before,
        }
    }
}

/// The events addressed to the installation driver, in order.
pub open spec fn installer_part(signals: Seq<Signal>) -> Seq<DriverEvent>
    decreases signals.len(),
{
    if signals.len() == 0 {
        Seq::empty()
    } else {
        let before = installer_part(signals.drop_last());
        match signals.last() {
            Signal::Installer(event) => before.push(event),
            Signal::Log(_) => before,
        }
    }
}

/// The events addressed to the outcome monitor, in order.
pub open spec fn log_part(signals: Seq<Signal>) -> Seq<MonitorEvent>
    decreases signals.len(),
{
    if signals.len() == 0 {
        Seq::empty()
    } else {
        let before = log_part(signals.drop_last());
        match signals.last() {
            Signal::Installer(_) => before,
            Signal::Log(event) => before.push(event),
        }
    }
}

/// The outcomes among `reports` that were delivered on `channel`, in order.
pub open spec fn on_channel(reports: Seq<Emission>, channel: EventName) -> Seq<Emission>
    decreases reports.len(),
{
    if reports.len() == 0 {
        Seq::empty()
    } else {
        let before = on_channel(reports.drop_last(), channel);
        if reports.last().event == channel {
            before.push(reports.last())
        } else {
            before
        }
    }
}

/// Concurrent independence: however the events for the driver and for the
/// monitor interleave, each component ends where it would have ended alone,
/// and reports on its own channel exactly what it would have reported alone.
/// Neither can hold up, change or suppress the outcome of the other.
pub proof fn lemma_components_are_independent(
    state: SessionState,
    signals: Seq<Signal>,
    filter_ok: bool,
)
    ensures
        session_after(state, signals, filter_ok).driver == state_after(
            state.driver,
            installer_part(signals),
        ),
        session_after(state, signals, filter_ok).monitor == monitor_state_after(
            state.monitor,
            log_part(signals),
            filter_ok,
        ),
        on_channel(
            session_reports(state, signals, filter_ok),
            EventName::CarrierBundleInstallStatus,
        ) == emissions(state.driver, installer_part(signals)),
        on_channel(
            session_reports(state, signals, filter_ok),
            EventName::InstallationSucceedStatus,
        ) == monitor_reports(state.monitor, log_part(signals), filter_ok),
    decreases signals.len(),
{
    if signals.len() > 0 {
        let before = signals.drop_last();
        lemma_components_are_independent(state, before, filter_ok);
        let mid = session_after(state, before, filter_ok);
        let sofar = session_reports(state, before, filter_ok);
        match session_report(mid, signals.last(), filter_ok) {
            Some(e) => {
                assert(sofar.push(e).drop_last() =~= sofar);
                assert(sofar.push(e).last() == e);
            },
            None => {},
        }
        match signals.last() {
            Signal::Installer(event) => {
                let part = installer_part(signals);
                assert(part.drop_last() =~= installer_part(before));
                assert(part.last() == event);
            },
            Signal::Log(event) => {
                let part = log_part(signals);
                assert(part.drop_last() =~= log_part(before));
                assert(part.last() == event);
            },
        }
    }
}

} // verus!
