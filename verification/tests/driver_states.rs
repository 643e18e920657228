use ipcc_installer::driver::{DriverEvent, DriverState, InstallDriver};
use ipcc_installer::emission::{Emission, EventName};
use ipcc_installer::status::StatusValue;

fn update(status: &str) -> DriverEvent {
    DriverEvent::Update(StatusValue::Dictionary(vec![(
        "Info".to_string(),
        StatusValue::Dictionary(vec![("Status".to_string(), StatusValue::Text(status.to_string()))]),
    )]))
}

const SUCCESS: Emission = Emission { event: EventName::CarrierBundleInstallStatus, payload: true };

#[test]
fn new_driver_is_idle() {
    assert_eq!(InstallDriver::new().state(), DriverState::Idle);
}

#[test]
fn idle_driver_ignores_updates_and_failures() {
    let mut driver = InstallDriver::new();
    assert_eq!(driver.handle(&update("Complete")), None);
    assert_eq!(driver.handle(&DriverEvent::CallFailed), None);
    assert_eq!(driver.handle(&DriverEvent::CallReturned), None);
    assert_eq!(driver.state(), DriverState::Idle);
}

#[test]
fn started_driver_streams() {
    let mut driver = InstallDriver::new();
    assert_eq!(driver.handle(&DriverEvent::Started), None);
    assert_eq!(driver.state(), DriverState::Streaming);
}

#[test]
fn completion_is_reported_with_the_last_update_only() {
    let mut driver = InstallDriver::resume(DriverState::Streaming);
    assert_eq!(driver.handle(&update("CreatingStagingDirectory")), None);
    assert_eq!(driver.state(), DriverState::Streaming);
    assert_eq!(driver.handle(&update("ExtractingPackage")), None);
    assert_eq!(driver.handle(&update("InstallingApplication")), None);
    assert_eq!(driver.state(), DriverState::Streaming);
    assert_eq!(driver.handle(&update("Complete")), Some(SUCCESS));
    assert_eq!(driver.state(), DriverState::Completed);
}

#[test]
fn run_reports_completion_exactly_once() {
    let events = vec![
        DriverEvent::Started,
        update("CopyingApplication"),
        update("VerifyingApplication"),
        update("Complete"),
    ];
    let mut driver = InstallDriver::new();
    assert_eq!(driver.run(&events), vec![SUCCESS]);
    assert_eq!(driver.state(), DriverState::Completed);

    let mut shorter = InstallDriver::new();
    assert_eq!(shorter.run(&events[..3].iter().map(clone_event).collect()), vec![]);
    assert_eq!(shorter.state(), DriverState::Streaming);
}

fn clone_event(event: &DriverEvent) -> DriverEvent {
    match event {
        DriverEvent::Started => DriverEvent::Started,
        DriverEvent::Update(StatusValue::Dictionary(entries)) => {
            let status = match &entries[0].1 {
                StatusValue::Dictionary(inner) => match &inner[0].1 {
                    StatusValue::Text(t) => t.clone(),
                    _ => unreachable!(),
                },
                _ => unreachable!(),
            };
            update(&status)
        }
        DriverEvent::Update(_) => unreachable!(),
        DriverEvent::CallFailed => DriverEvent::CallFailed,
        DriverEvent::CallReturned => DriverEvent::CallReturned,
    }
}

#[test]
fn updates_after_completion_are_ignored() {
    let mut driver = InstallDriver::resume(DriverState::Streaming);
    assert_eq!(driver.handle(&update("Complete")), Some(SUCCESS));
    assert_eq!(driver.handle(&update("Complete")), None);
    assert_eq!(driver.handle(&DriverEvent::CallFailed), None);
    assert_eq!(driver.handle(&DriverEvent::CallReturned), None);
    assert_eq!(driver.state(), DriverState::Completed);
}

#[test]
fn install_call_failure_is_reported_as_success() {
    let mut driver = InstallDriver::resume(DriverState::Streaming);
    assert_eq!(driver.handle(&update("Installing")), None);
    assert_eq!(driver.handle(&DriverEvent::CallFailed), Some(SUCCESS));
    assert_eq!(driver.state(), DriverState::ErroredButReportedSuccess);
    assert_eq!(driver.handle(&update("Complete")), None);
    assert_eq!(driver.handle(&DriverEvent::CallFailed), None);
    assert_eq!(driver.state(), DriverState::ErroredButReportedSuccess);
}

#[test]
fn install_call_return_reports_nothing_and_keeps_streaming() {
    let mut driver = InstallDriver::resume(DriverState::Streaming);
    assert_eq!(driver.handle(&DriverEvent::CallReturned), None);
    assert_eq!(driver.state(), DriverState::Streaming);
    assert_eq!(driver.handle(&update("Complete")), Some(SUCCESS));
}

#[test]
fn run_from_a_terminal_state_reports_nothing() {
    let mut driver = InstallDriver::resume(DriverState::ErroredButReportedSuccess);
    let reports = driver.run(&vec![DriverEvent::Started, update("Complete"), DriverEvent::CallFailed]);
    assert!(reports.is_empty());
    assert_eq!(driver.state(), DriverState::ErroredButReportedSuccess);
}

#[test]
fn event_names_are_those_of_the_sink() {
    assert_eq!(EventName::CarrierBundleInstallStatus.name(), "carrier_bundle_install_status");
    assert_eq!(EventName::InstallationSucceedStatus.name(), "installation_succeed_status");
    assert_eq!(Emission::install(false), Emission {
        event: EventName::CarrierBundleInstallStatus,
        payload: false,
    });
    assert_eq!(Emission::verification(true), Emission {
        event: EventName::InstallationSucceedStatus,
        payload: true,
    });
}
