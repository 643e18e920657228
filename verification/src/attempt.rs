//! One installation attempt from start to end: identity guard, bundle
//! transcoding and streaming install, as one state machine whose outside
//! work (device query, download, installer session) the caller performs.

use vstd::prelude::*;
use crate::driver::{emitted, next_state, DriverEvent, DriverState, InstallDriver};
use crate::emission::Emission;
use crate::identity::{check_identity, guard_verdict, BundleRequest, DeviceDescriptor, GuardError};
use crate::transcode::{
    carried_over,
    kind_of,
    lemma_entry_order_is_immaterial,
    lemma_files_survive_transcoding,
    lemma_media_read_back_as_planned,
    planned_media,
    repack_tar_to_zip,
    tar_listing,
    transcode_outcome,
    zip_listing,
    EntryKind,
    SourceEntryView,
    TranscodeError,
};

verus! {

/// Why an attempt was abandoned before the install call.
#[derive(Clone, Copy, Debug, PartialEq, Eq, Structural)]
pub enum AttemptError {
    /// No device is attached.
    DeviceNotFound,
    /// The attached device is not the one the request names.
    IdentityMismatch,
    /// The bundle archive could not be retrieved.
    FetchFailure,
    /// The bundle archive could not be converted into install media.
    TranscodeFailure,
}

/// Where an attempt stands.
#[derive(Clone, Copy, Debug, PartialEq, Eq, Structural)]
pub enum AttemptPhase {
    /// Waiting for the result of the device query.
    AwaitingDevice,
    /// The device matched; waiting for the bundle archive.
    AwaitingArchive,
    /// The install media were handed to the installer; the driver is at work.
    Installing(DriverState),
    /// The attempt was abandoned.
    Aborted(AttemptError),
}

/// What the surroundings tell the attempt.
pub enum AttemptEvent {
    /// The device query returned: the attached device, or none.
    DeviceLookup(Option<DeviceDescriptor>),
    /// The download returned: the bundle as a tar archive, or none where the
    /// bundle could not be retrieved.
    ArchiveFetched(Option<Vec<u8>>),
    /// The installer subsystem sent something to the driver.
    Installer(DriverEvent),
}

/// What the attempt asks of its surroundings in answer to an event.
pub enum AttemptAction {
    /// Nothing.
    Idle,
    /// Download the bundle that the request names.
    FetchBundle,
    /// Stream these install media into the device's installer.
    StreamInstall(Vec<u8>),
    /// Deliver this outcome to the notification sink.
    Report(Emission),
}

/// An action as plain values.
pub enum AttemptActionView {
    Idle,
    FetchBundle,
    StreamInstall(Seq<u8>),
    Report(Emission),
}

impl View for AttemptAction {
    type V = AttemptActionView;

    open spec fn view(&self) -> AttemptActionView {
        match self {
            AttemptAction::Idle => AttemptActionView::Idle,
            AttemptAction::FetchBundle => AttemptActionView::FetchBundle,
            AttemptAction::StreamInstall(media) => AttemptActionView::StreamInstall(media@),
            AttemptAction::Report(e) => AttemptActionView::Report(*e),
        }
    }
}

impl AttemptPhase {
    /// Whether the attempt is over: abandoned, or its driver has reported.
    pub open spec fn is_over(self) -> bool {
        match self {
            AttemptPhase::Aborted(_) => true,
            AttemptPhase::Installing(driver) => driver.is_terminal(),
            _ => false,
        }
    }
}

/// The phase that follows `phase` once the transcoder has answered: an
/// attempt that awaits its archive starts installing if there are install
/// media and is abandoned if there are none; any other attempt stays as it
/// is.
pub open spec fn phase_on_media(phase: AttemptPhase, media: Result<Seq<u8>, TranscodeError>)
    -> AttemptPhase {
    if phase == AttemptPhase::AwaitingArchive {
        match media {
            Ok(_) => AttemptPhase::Installing(DriverState::Streaming),
            Err(_) => AttemptPhase::Aborted(AttemptError::TranscodeFailure),
        }
    } else {
        phase
    }
}

/// What the attempt asks for once the transcoder has answered: to stream the
/// install media, where it awaited its archive and there are media.
pub open spec fn action_on_media(phase: AttemptPhase, media: Result<Seq<u8>, TranscodeError>)
    -> AttemptActionView {
    if phase == AttemptPhase::AwaitingArchive {
        match media {
            Ok(image) => AttemptActionView::StreamInstall(image),
            Err(_) => AttemptActionView::Idle,
        }
    } else {
        AttemptActionView::Idle
    }
}

/// The transcoder's answer as plain values.
pub open spec fn media_view(media: Result<Vec<u8>, TranscodeError>) -> Result<
    Seq<u8>,
    TranscodeError,
> {
    match media {
        Ok(image) => Ok(image@),
        Err(e) => Err(e),
    }
}

/// The phase that follows `phase` on `event`, for an attempt that serves
/// `request`.
pub open spec fn attempt_next(request: BundleRequest, phase: AttemptPhase, event: AttemptEvent)
    -> AttemptPhase {
    match phase {
        AttemptPhase::AwaitingDevice => match event {
            AttemptEvent::DeviceLookup(device) => match guard_verdict(request, device) {
                Ok(_) => AttemptPhase::AwaitingArchive,
                Err(GuardError::DeviceNotFound) => AttemptPhase::Aborted(
                    AttemptError::DeviceNotFound,
                ),
                Err(GuardError::IdentityMismatch) => AttemptPhase::Aborted(
                    AttemptError::IdentityMismatch,
                ),
            },
            _ => phase,
        },
        AttemptPhase::AwaitingArchive => match event {
            AttemptEvent::ArchiveFetched(None) => AttemptPhase::Aborted(AttemptError::FetchFailure),
            AttemptEvent::ArchiveFetched(Some(archive)) => phase_on_media(
                phase,
                transcode_outcome(tar_listing(archive@)),
            ),
            _ => phase,
        },
        AttemptPhase::Installing(driver) => match event {
            AttemptEvent::Installer(signal) => AttemptPhase::Installing(next_state(driver, signal)),
            _ => phase,
        },
        AttemptPhase::Aborted(_) => phase,
    }
}

/// What the attempt asks for when `event` arrives in `phase`.
///
/// A failed identity check reports `false` on the install channel. A fetch
/// or transcode failure abandons the attempt without a report of its own.
/// While installing, the driver decides what is reported.
pub open spec fn attempt_action(request: BundleRequest, phase: AttemptPhase, event: AttemptEvent)
    -> AttemptActionView {
    match phase {
        AttemptPhase::AwaitingDevice => match event {
            AttemptEvent::DeviceLookup(device) => match guard_verdict(request, device) {
                Ok(_) => AttemptActionView::FetchBundle,
                Err(_) => AttemptActionView::Report(Emission::spec_install(false)),
            },
            _ => AttemptActionView::Idle,
        },
        AttemptPhase::AwaitingArchive => match event {
            AttemptEvent::ArchiveFetched(Some(archive)) => action_on_media(
                phase,
                transcode_outcome(tar_listing(archive@)),
            ),
            _ => AttemptActionView::Idle,
        },
        AttemptPhase::Installing(driver) => match event {
            AttemptEvent::Installer(signal) => match emitted(driver, signal) {
                Some(e) => AttemptActionView::Report(e),
                None => AttemptActionView::Idle,
            },
            _ => AttemptActionView::Idle,
        },
        AttemptPhase::Aborted(_) => AttemptActionView::Idle,
    }
}

/// One installation attempt. An attempt serves one request and is then
/// discarded.
pub struct InstallAttempt {
    request: BundleRequest,
    phase: AttemptPhase,
}

impl InstallAttempt {
    /// The request that this attempt serves.
    pub closed spec fn spec_request(self) -> BundleRequest {
        self.request
    }

    /// The attempt's current phase.
    pub closed spec fn spec_phase(self) -> AttemptPhase {
        self.phase
    }

    /// Begins an attempt for the given device and bundle. The caller then
    /// queries the attached device and hands the result to `install_ipcc`.
    pub fn new(device_model: String, ios_version: String, bundle: String) -> (attempt:
        InstallAttempt)
        ensures
            attempt.spec_phase() == AttemptPhase::AwaitingDevice,
            attempt.spec_request().device_model == device_model,
            attempt.spec_request().ios_version == ios_version,
            attempt.spec_request().bundle_name == bundle,
    {
        InstallAttempt {
            request: BundleRequest { device_model, ios_version, bundle_name: bundle },
            phase: AttemptPhase::AwaitingDevice,
        }
    }

    /// Returns the request that this attempt serves.
    pub fn request(&self) -> (request: &BundleRequest)
        ensures
            *request == self.spec_request(),
    {
        &self.request
    }

    /// Returns the attempt's current phase.
    pub fn phase(&self) -> (phase: AttemptPhase)
        ensures
            phase == self.spec_phase(),
    {
        self.phase
    }

    /// Takes the transcoder's answer for the fetched archive. An attempt
    /// that awaits its archive goes on to stream the install media, or is
    /// abandoned where transcoding failed; any other attempt stays as it is.
    pub fn media_prepared(&mut self, media: Result<Vec<u8>, TranscodeError>) -> (action:
        AttemptAction)
        ensures
            final(self).spec_request() == old(self).spec_request(),
            final(self).spec_phase() == phase_on_media(old(self).spec_phase(), media_view(media)),
            action@ == action_on_media(old(self).spec_phase(), media_view(media)),
    {
        match self.phase {
            AttemptPhase::AwaitingArchive => match media {
                Ok(image) => {
                    self.phase = AttemptPhase::Installing(DriverState::Streaming);
                    AttemptAction::StreamInstall(image)
                },
                Err(_) => {
                    self.phase = AttemptPhase::Aborted(AttemptError::TranscodeFailure);
                    AttemptAction::Idle
                },
            },
            _ => AttemptAction::Idle,
        }
    }
}

/// Takes one event of an installation attempt: moves the attempt to its next
/// phase and returns what to do.
///
/// The device lookup is checked against the request; nothing is fetched,
/// transcoded or installed unless model and OS version both match. The
/// fetched archive is repacked into install media. While the install
/// streams, every status update is searched for the completion signal.
pub fn install_ipcc(attempt: &mut InstallAttempt, event: AttemptEvent) -> (action: AttemptAction)
    ensures
        final(attempt).spec_request() == old(attempt).spec_request(),
        final(attempt).spec_phase() == attempt_next(
            old(attempt).spec_request(),
            old(attempt).spec_phase(),
            event,
        ),
        action@ == attempt_action(old(attempt).spec_request(), old(attempt).spec_phase(), event),
{
    match attempt.phase {
        AttemptPhase::AwaitingDevice => match event {
            AttemptEvent::DeviceLookup(device) => match check_identity(&attempt.request, &device) {
                Ok(_) => {
                    attempt.phase = AttemptPhase::AwaitingArchive;
                    AttemptAction::FetchBundle
                },
                Err(GuardError::DeviceNotFound) => {
                    attempt.phase = AttemptPhase::Aborted(AttemptError::DeviceNotFound);
                    AttemptAction::Report(Emission::install(false))
                },
                Err(GuardError::IdentityMismatch) => {
                    attempt.phase = AttemptPhase::Aborted(AttemptError::IdentityMismatch);
                    AttemptAction::Report(Emission::install(false))
                },
            },
            _ => AttemptAction::Idle,
        },
        AttemptPhase::AwaitingArchive => match event {
            AttemptEvent::ArchiveFetched(None) => {
                attempt.phase = AttemptPhase::Aborted(AttemptError::FetchFailure);
                AttemptAction::Idle
            },
            AttemptEvent::ArchiveFetched(Some(archive)) => {
                let media = repack_tar_to_zip(archive.as_slice());
                attempt.media_prepared(media)
            },
            _ => AttemptAction::Idle,
        },
        AttemptPhase::Installing(state) => match event {
            AttemptEvent::Installer(signal) => {
                let mut driver = InstallDriver::resume(state);
                let report = driver.handle(&signal);
                attempt.phase = AttemptPhase::Installing(driver.state());
                match report {
                    Some(e) => AttemptAction::Report(e),
                    None => AttemptAction::Idle,
                }
            },
            _ => AttemptAction::Idle,
        },
        AttemptPhase::Aborted(_) => AttemptAction::Idle,
    }
}

/// The phase reached from `phase` after `events`, in order.
pub open spec fn phase_after(request: BundleRequest, phase: AttemptPhase, events: Seq<AttemptEvent>)
    -> AttemptPhase
    decreases events.len(),
{
    if events.len() == 0 {
        phase
    } else {
        attempt_next(request, phase_after(request, phase, events.drop_last()), events.last())
    }
}

/// What the attempt asks for over `events`, one action for each event.
pub open spec fn actions_over(request: BundleRequest, phase: AttemptPhase, events: Seq<AttemptEvent>)
    -> Seq<AttemptActionView>
    decreases events.len(),
{
    if events.len() == 0 {
        Seq::empty()
    } else {
        actions_over(request, phase, events.drop_last()).push(
            attempt_action(request, phase_after(request, phase, events.drop_last()), events.last()),
        )
    }
}

/// How many of the actions deliver an outcome.
pub open spec fn report_count(actions: Seq<AttemptActionView>) -> nat
    decreases actions.len(),
{
    if actions.len() == 0 {
        0
    } else {
        report_count(actions.drop_last()) + if actions.last() is Report {
            1nat
        } else {
            0nat
        }
    }
}

/// An abandoned attempt stays abandoned and asks for nothing more: no
/// download, no install, no report.
pub proof fn lemma_aborted_attempt_is_idle(
    request: BundleRequest,
    error: AttemptError,
    events: Seq<AttemptEvent>,
)
    ensures
        phase_after(request, AttemptPhase::Aborted(error), events) == AttemptPhase::Aborted(error),
        actions_over(request, AttemptPhase::Aborted(error), events).len() == events.len(),
        forall|i: int|
            0 <= i < events.len() ==> (#[trigger] actions_over(
                request,
                AttemptPhase::Aborted(error),
                events,
            )[i]) is Idle,
    decreases events.len(),
{
    if events.len() > 0 {
        lemma_aborted_attempt_is_idle(request, error, events.drop_last());
    }
}

/// A run of events can be cut after its first event: the actions of the
/// whole are the action for that event, then those of the rest from the
/// phase that the first event led to.
pub proof fn lemma_attempt_run_unfolds(
    request: BundleRequest,
    phase: AttemptPhase,
    head: AttemptEvent,
    rest: Seq<AttemptEvent>,
)
    ensures
        phase_after(request, phase, seq![head] + rest) == phase_after(
            request,
            attempt_next(request, phase, head),
            rest,
        ),
        actions_over(request, phase, seq![head] + rest) == seq![
            attempt_action(request, phase, head),
        ] + actions_over(request, attempt_next(request, phase, head), rest),
    decreases rest.len(),
{
    let events = seq![head] + rest;
    let first = attempt_action(request, phase, head);
    let then = attempt_next(request, phase, head);
    if rest.len() == 0 {
        let none = events.drop_last();
        assert(none =~= Seq::<AttemptEvent>::empty());
        assert(events.last() == head);
        assert(phase_after(request, phase, none) == phase);
        assert(actions_over(request, phase, none) =~= Seq::<AttemptActionView>::empty());
        assert(actions_over(request, then, rest) =~= Seq::<AttemptActionView>::empty());
        assert(actions_over(request, phase, events) =~= seq![first] + actions_over(
            request,
            then,
            rest,
        ));
    } else {
        lemma_attempt_run_unfolds(request, phase, head, rest.drop_last());
        assert(events.drop_last() =~= seq![head] + rest.drop_last());
        assert(events.last() == rest.last());
        let shorter = actions_over(request, then, rest.drop_last());
        let closing = attempt_action(
            request,
            phase_after(request, then, rest.drop_last()),
            rest.last(),
        );
        assert((seq![first] + shorter).push(closing) =~= seq![first] + shorter.push(closing));
        assert(actions_over(request, phase, events) =~= seq![first] + actions_over(
            request,
            then,
            rest,
        ));
    }
}

/// Identity guard: when the device query finds no device, or a device whose
/// model or OS version differs from the requested one, the attempt reports
/// `false` on the install channel and does nothing else, whatever arrives
/// later: it asks for no download and no install.
pub proof fn lemma_failed_guard_stops_attempt(
    request: BundleRequest,
    device: Option<DeviceDescriptor>,
    later: Seq<AttemptEvent>,
)
    requires
        guard_verdict(request, device) is Err,
    ensures
        ({
            let events = seq![AttemptEvent::DeviceLookup(device)] + later;
            let actions = actions_over(request, AttemptPhase::AwaitingDevice, events);
            &&& actions.len() == events.len()
            &&& actions[0] == AttemptActionView::Report(Emission::spec_install(false))
            &&& forall|i: int| 1 <= i < actions.len() ==> (#[trigger] actions[i]) is Idle
            &&& phase_after(request, AttemptPhase::AwaitingDevice, events) is Aborted
        }),
{
    let lookup = AttemptEvent::DeviceLookup(device);
    let then = attempt_next(request, AttemptPhase::AwaitingDevice, lookup);
    lemma_attempt_run_unfolds(request, AttemptPhase::AwaitingDevice, lookup, later);
    lemma_aborted_attempt_is_idle(request, then->Aborted_0, later);
    let actions = actions_over(request, AttemptPhase::AwaitingDevice, seq![lookup] + later);
    let tail = actions_over(request, then, later);
    assert forall|i: int| 1 <= i < actions.len() implies (#[trigger] actions[i]) is Idle by {
        assert(actions[i] == tail[i - 1]);
    }
}

/// The guard for a device that is attached but is not the requested one:
/// a difference in the model or in the OS version alone is enough to stop
/// the attempt with a `false` report.
pub proof fn lemma_mismatch_stops_attempt(
    request: BundleRequest,
    attached: DeviceDescriptor,
    later: Seq<AttemptEvent>,
)
    requires
        request.device_model@ != attached.model@ || request.ios_version@ != attached.os_version@,
    ensures
        ({
            let events = seq![AttemptEvent::DeviceLookup(Some(attached))] + later;
            let actions = actions_over(request, AttemptPhase::AwaitingDevice, events);
            &&& actions.len() == events.len()
            &&& actions[0] == AttemptActionView::Report(Emission::spec_install(false))
            &&& forall|i: int| 1 <= i < actions.len() ==> (#[trigger] actions[i]) is Idle
            &&& phase_after(request, AttemptPhase::AwaitingDevice, events) == AttemptPhase::Aborted(
                AttemptError::IdentityMismatch,
            )
        }),
{
    let lookup = AttemptEvent::DeviceLookup(Some(attached));
    lemma_failed_guard_stops_attempt(request, Some(attached), later);
    lemma_attempt_run_unfolds(request, AttemptPhase::AwaitingDevice, lookup, later);
    lemma_aborted_attempt_is_idle(request, AttemptError::IdentityMismatch, later);
}

/// Over any run of events, from any phase, an attempt delivers at most one
/// outcome.
pub proof fn lemma_attempt_reports_at_most_once(
    request: BundleRequest,
    phase: AttemptPhase,
    events: Seq<AttemptEvent>,
)
    ensures
        report_count(actions_over(request, phase, events)) <= 1,
        report_count(actions_over(request, phase, events)) == 1 ==> phase_after(
            request,
            phase,
            events,
        ).is_over(),
    decreases events.len(),
{
    if events.len() > 0 {
        let before = events.drop_last();
        lemma_attempt_reports_at_most_once(request, phase, before);
        let actions = actions_over(request, phase, events);
        assert(actions.drop_last() =~= actions_over(request, phase, before));
    }
}

/// How many of the actions ask for an install.
pub open spec fn install_count(actions: Seq<AttemptActionView>) -> nat
    decreases actions.len(),
{
    if actions.len() == 0 {
        0
    } else {
        install_count(actions.drop_last()) + if actions.last() is StreamInstall {
            1nat
        } else {
            0nat
        }
    }
}

/// Over any run of events, an attempt that awaits its device or its archive
/// asks for at most one install, and for none once it is installing or
/// abandoned.
pub proof fn lemma_attempt_installs_at_most_once(
    request: BundleRequest,
    phase: AttemptPhase,
    events: Seq<AttemptEvent>,
)
    ensures
        install_count(actions_over(request, phase, events)) <= 1,
        phase is Installing ==> phase_after(request, phase, events) is Installing,
        phase is Aborted ==> phase_after(request, phase, events) is Aborted,
        phase is Installing || phase is Aborted ==> install_count(
            actions_over(request, phase, events),
        ) == 0,
        install_count(actions_over(request, phase, events)) == 1 ==> phase_after(
            request,
            phase,
            events,
        ) is Installing,
        phase_after(request, phase, events) is AwaitingDevice || phase_after(
            request,
            phase,
            events,
        ) is AwaitingArchive ==> install_count(actions_over(request, phase, events)) == 0,
    decreases events.len(),
{
    if events.len() > 0 {
        let before = events.drop_last();
        lemma_attempt_installs_at_most_once(request, phase, before);
        let actions = actions_over(request, phase, events);
        assert(actions.drop_last() =~= actions_over(request, phase, before));
    }
}

/// Transcode round trip: the install media that an attempt hands to the
/// installer for a fetched archive read back as one entry for each entry of
/// the archive, in order and as planned. Where the archive holds files only,
/// the set of (path, contents) pairs read back is the set that the archive
/// holds: every path kept, all contents equal byte for byte, nothing added
/// or dropped.
pub proof fn lemma_installed_media_hold_the_archive(
    request: BundleRequest,
    archive: Vec<u8>,
    media: Seq<u8>,
)
    requires
        attempt_action(
            request,
            AttemptPhase::AwaitingArchive,
            AttemptEvent::ArchiveFetched(Some(archive)),
        ) == AttemptActionView::StreamInstall(media),
    ensures
        tar_listing(archive@) is Some,
        zip_listing(media) == planned_media(tar_listing(archive@)->Some_0),
        zip_listing(media) is Some,
        (forall|i: int|
            0 <= i < tar_listing(archive@)->Some_0.len() ==> kind_of(
                (#[trigger] tar_listing(archive@)->Some_0[i]).type_flag,
            ) == EntryKind::File) ==> zip_listing(media)->Some_0.to_set() == tar_listing(
            archive@,
        )->Some_0.map_values(|source: SourceEntryView| carried_over(source)).to_set(),
{
    let sources = tar_listing(archive@)->Some_0;
    lemma_media_read_back_as_planned(sources, media);
    if forall|i: int|
        0 <= i < sources.len() ==> kind_of((#[trigger] sources[i]).type_flag) == EntryKind::File {
        lemma_files_survive_transcoding(sources, media);
    }
}

/// What reaches the installer does not depend on the order of the entries in
/// the fetched archive: when two archives hold the same entries in any
/// order and an attempt hands out install media for each, the two media read
/// back as the same set of entries.
pub proof fn lemma_installed_media_ignore_entry_order(
    request: BundleRequest,
    first: Vec<u8>,
    second: Vec<u8>,
    first_media: Seq<u8>,
    second_media: Seq<u8>,
)
    requires
        tar_listing(first@) is Some,
        tar_listing(second@) is Some,
        tar_listing(first@)->Some_0.to_multiset() == tar_listing(second@)->Some_0.to_multiset(),
        attempt_action(
            request,
            AttemptPhase::AwaitingArchive,
            AttemptEvent::ArchiveFetched(Some(first)),
        ) == AttemptActionView::StreamInstall(first_media),
        attempt_action(
            request,
            AttemptPhase::AwaitingArchive,
            AttemptEvent::ArchiveFetched(Some(second)),
        ) == AttemptActionView::StreamInstall(second_media),
    ensures
        zip_listing(first_media) is Some,
        zip_listing(second_media) is Some,
        zip_listing(first_media)->Some_0.to_set() == zip_listing(second_media)->Some_0.to_set(),
{
    lemma_entry_order_is_immaterial(
        tar_listing(first@)->Some_0,
        tar_listing(second@)->Some_0,
        first_media,
        second_media,
    );
}

} // verus!
