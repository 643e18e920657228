use std::io::Cursor;

use ipcc_installer::attempt::{
    install_ipcc, AttemptAction, AttemptError, AttemptEvent, AttemptPhase, InstallAttempt,
};
use ipcc_installer::driver::{DriverEvent, DriverState};
use ipcc_installer::emission::{Emission, EventName};
use ipcc_installer::identity::DeviceDescriptor;
use ipcc_installer::status::StatusValue;
use ipcc_installer::transcode::TranscodeError;

const SUCCESS: Emission = Emission { event: EventName::CarrierBundleInstallStatus, payload: true };
const FAILURE: Emission = Emission { event: EventName::CarrierBundleInstallStatus, payload: false };

fn attempt() -> InstallAttempt {
    InstallAttempt::new("iPhone12,1".to_string(), "17.4".to_string(), "Verizon_US".to_string())
}

fn lookup(model: &str, version: &str) -> AttemptEvent {
    AttemptEvent::DeviceLookup(Some(DeviceDescriptor {
        model: model.to_string(),
        os_version: version.to_string(),
    }))
}

fn bundle() -> Vec<u8> {
    let mut builder = tar::Builder::new(Vec::new());
    let content = b"carrier settings";
    let mut header = tar::Header::new_gnu();
    header.set_size(content.len() as u64);
    header.set_mode(0o644);
    builder.append_data(&mut header, "Payload/Verizon_US.bundle/carrier.plist", &content[..]).unwrap();
    builder.into_inner().unwrap()
}

fn update(status: &str) -> AttemptEvent {
    AttemptEvent::Installer(DriverEvent::Update(StatusValue::Dictionary(vec![
        ("PercentComplete".to_string(), StatusValue::Other),
        ("Status".to_string(), StatusValue::Text(status.to_string())),
    ])))
}

fn report_of(action: AttemptAction) -> Option<Emission> {
    match action {
        AttemptAction::Report(e) => Some(e),
        _ => None,
    }
}

fn is_idle(action: AttemptAction) -> bool {
    matches!(action, AttemptAction::Idle)
}

#[test]
fn new_attempt_awaits_the_device() {
    let attempt = attempt();
    assert_eq!(attempt.phase(), AttemptPhase::AwaitingDevice);
    assert_eq!(attempt.request().device_model, "iPhone12,1");
    assert_eq!(attempt.request().ios_version, "17.4");
    assert_eq!(attempt.request().bundle_name, "Verizon_US");
}

#[test]
fn mismatched_device_reports_failure_and_nothing_else_happens() {
    for (model, version) in [("iPhone12,3", "17.4"), ("iPhone12,1", "17.5"), ("iPad7,5", "16.0")] {
        let mut attempt = attempt();
        let action = install_ipcc(&mut attempt, lookup(model, version));
        assert_eq!(report_of(action), Some(FAILURE));
        assert_eq!(attempt.phase(), AttemptPhase::Aborted(AttemptError::IdentityMismatch));
        assert!(is_idle(install_ipcc(&mut attempt, AttemptEvent::ArchiveFetched(Some(bundle())))));
        assert!(is_idle(install_ipcc(&mut attempt, update("Complete"))));
        assert!(is_idle(install_ipcc(&mut attempt, AttemptEvent::Installer(DriverEvent::CallFailed))));
        assert!(is_idle(install_ipcc(&mut attempt, lookup("iPhone12,1", "17.4"))));
        assert_eq!(attempt.phase(), AttemptPhase::Aborted(AttemptError::IdentityMismatch));
    }
}

#[test]
fn missing_device_reports_failure_and_nothing_else_happens() {
    let mut attempt = attempt();
    let action = install_ipcc(&mut attempt, AttemptEvent::DeviceLookup(None));
    assert_eq!(report_of(action), Some(FAILURE));
    assert_eq!(attempt.phase(), AttemptPhase::Aborted(AttemptError::DeviceNotFound));
    assert!(is_idle(install_ipcc(&mut attempt, AttemptEvent::ArchiveFetched(Some(bundle())))));
    assert!(is_idle(install_ipcc(&mut attempt, update("Complete"))));
}

#[test]
fn matching_device_leads_to_download_transcoding_and_install() {
    let mut attempt = attempt();
    assert!(matches!(
        install_ipcc(&mut attempt, lookup("iPhone12,1", "17.4")),
        AttemptAction::FetchBundle
    ));
    assert_eq!(attempt.phase(), AttemptPhase::AwaitingArchive);

    let media = match install_ipcc(&mut attempt, AttemptEvent::ArchiveFetched(Some(bundle()))) {
        AttemptAction::StreamInstall(media) => media,
        _ => panic!("no install media"),
    };
    assert_eq!(attempt.phase(), AttemptPhase::Installing(DriverState::Streaming));
    let mut archive = zip::ZipArchive::new(Cursor::new(media)).unwrap();
    assert_eq!(archive.len(), 1);
    let mut content = String::new();
    std::io::Read::read_to_string(
        &mut archive.by_name("Payload/Verizon_US.bundle/carrier.plist").unwrap(),
        &mut content,
    )
    .unwrap();
    assert_eq!(content, "carrier settings");

    assert!(is_idle(install_ipcc(&mut attempt, update("CopyingApplication"))));
    assert!(is_idle(install_ipcc(&mut attempt, update("InstallingApplication"))));
    assert_eq!(attempt.phase(), AttemptPhase::Installing(DriverState::Streaming));
    assert_eq!(report_of(install_ipcc(&mut attempt, update("Complete"))), Some(SUCCESS));
    assert_eq!(attempt.phase(), AttemptPhase::Installing(DriverState::Completed));
    assert!(is_idle(install_ipcc(&mut attempt, update("Complete"))));
    assert!(is_idle(install_ipcc(&mut attempt, AttemptEvent::Installer(DriverEvent::CallReturned))));
}

#[test]
fn failed_download_abandons_the_attempt_without_a_report() {
    let mut attempt = attempt();
    install_ipcc(&mut attempt, lookup("iPhone12,1", "17.4"));
    assert!(is_idle(install_ipcc(&mut attempt, AttemptEvent::ArchiveFetched(None))));
    assert_eq!(attempt.phase(), AttemptPhase::Aborted(AttemptError::FetchFailure));
    assert!(is_idle(install_ipcc(&mut attempt, AttemptEvent::ArchiveFetched(Some(bundle())))));
    assert!(is_idle(install_ipcc(&mut attempt, update("Complete"))));
}

#[test]
fn malformed_archive_abandons_the_attempt_without_a_report() {
    let mut attempt = attempt();
    install_ipcc(&mut attempt, lookup("iPhone12,1", "17.4"));
    let broken = vec![0x5Au8; 700];
    assert!(is_idle(install_ipcc(&mut attempt, AttemptEvent::ArchiveFetched(Some(broken)))));
    assert_eq!(attempt.phase(), AttemptPhase::Aborted(AttemptError::TranscodeFailure));
    assert!(is_idle(install_ipcc(&mut attempt, update("Complete"))));
}

#[test]
fn failed_install_call_is_reported_as_success() {
    let mut attempt = attempt();
    install_ipcc(&mut attempt, lookup("iPhone12,1", "17.4"));
    install_ipcc(&mut attempt, AttemptEvent::ArchiveFetched(Some(bundle())));
    let action = install_ipcc(&mut attempt, AttemptEvent::Installer(DriverEvent::CallFailed));
    assert_eq!(report_of(action), Some(SUCCESS));
    assert_eq!(attempt.phase(), AttemptPhase::Installing(DriverState::ErroredButReportedSuccess));
    assert!(is_idle(install_ipcc(&mut attempt, update("Complete"))));
}

#[test]
fn attempt_events_out_of_turn_change_nothing() {
    let mut attempt = attempt();
    assert!(is_idle(install_ipcc(&mut attempt, AttemptEvent::ArchiveFetched(Some(bundle())))));
    assert!(is_idle(install_ipcc(&mut attempt, update("Complete"))));
    assert_eq!(attempt.phase(), AttemptPhase::AwaitingDevice);
    install_ipcc(&mut attempt, lookup("iPhone12,1", "17.4"));
    assert!(is_idle(install_ipcc(&mut attempt, lookup("iPhone12,9", "17.4"))));
    assert!(is_idle(install_ipcc(&mut attempt, update("Complete"))));
    assert_eq!(attempt.phase(), AttemptPhase::AwaitingArchive);
    install_ipcc(&mut attempt, AttemptEvent::ArchiveFetched(Some(bundle())));
    assert!(is_idle(install_ipcc(&mut attempt, AttemptEvent::DeviceLookup(None))));
    assert!(is_idle(install_ipcc(&mut attempt, AttemptEvent::ArchiveFetched(None))));
    assert_eq!(attempt.phase(), AttemptPhase::Installing(DriverState::Streaming));
}

#[test]
fn prepared_media_start_the_install_only_when_awaited() {
    let mut early = attempt();
    assert!(is_idle(early.media_prepared(Ok(vec![1, 2, 3]))));
    assert_eq!(early.phase(), AttemptPhase::AwaitingDevice);

    let mut ready = attempt();
    install_ipcc(&mut ready, lookup("iPhone12,1", "17.4"));
    match ready.media_prepared(Ok(vec![1, 2, 3])) {
        AttemptAction::StreamInstall(media) => assert_eq!(media, vec![1, 2, 3]),
        _ => panic!("no install media"),
    }
    assert_eq!(ready.phase(), AttemptPhase::Installing(DriverState::Streaming));

    let mut failed = attempt();
    install_ipcc(&mut failed, lookup("iPhone12,1", "17.4"));
    assert!(is_idle(failed.media_prepared(Err(TranscodeError::UnrepresentableEntry))));
    assert_eq!(failed.phase(), AttemptPhase::Aborted(AttemptError::TranscodeFailure));
}
