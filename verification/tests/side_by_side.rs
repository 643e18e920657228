use ipcc_installer::driver::{DriverEvent, DriverState, InstallDriver};
use ipcc_installer::emission::{Emission, EventName};
use ipcc_installer::monitor::{
    check_installing_succeed, MonitorAction, MonitorEvent, MonitorState, OutcomeMonitor,
};
use ipcc_installer::status::StatusValue;

#[derive(Clone, Copy)]
enum Step {
    Progress,
    Complete,
    Match,
    Timeout,
}

fn update(status: &str) -> DriverEvent {
    DriverEvent::Update(StatusValue::Dictionary(vec![(
        "Status".to_string(),
        StatusValue::Text(status.to_string()),
    )]))
}

fn run(steps: &[Step]) -> (Vec<Emission>, DriverState, MonitorState) {
    let mut driver = InstallDriver::resume(DriverState::Streaming);
    let mut monitor = OutcomeMonitor::new();
    assert!(matches!(
        check_installing_succeed(&mut monitor, MonitorEvent::DeviceFound),
        MonitorAction::Watch(_)
    ));
    let mut reports = Vec::new();
    for step in steps {
        let report = match step {
            Step::Progress => driver.handle(&update("Installing")),
            Step::Complete => driver.handle(&update("Complete")),
            Step::Match => match check_installing_succeed(&mut monitor, MonitorEvent::Matched) {
                MonitorAction::Report(e) => Some(e),
                _ => None,
            },
            Step::Timeout => match check_installing_succeed(&mut monitor, MonitorEvent::TimedOut) {
                MonitorAction::Report(e) => Some(e),
                _ => None,
            },
        };
        reports.extend(report);
    }
    (reports, driver.state(), monitor.state())
}

const INSTALLED: Emission = Emission { event: EventName::CarrierBundleInstallStatus, payload: true };
const VERIFIED: Emission = Emission { event: EventName::InstallationSucceedStatus, payload: true };
const UNVERIFIED: Emission = Emission { event: EventName::InstallationSucceedStatus, payload: false };

#[test]
fn both_components_report_once_in_either_order() {
    let (reports, driver, monitor) = run(&[Step::Progress, Step::Complete, Step::Match]);
    assert_eq!(reports, vec![INSTALLED, VERIFIED]);
    assert_eq!((driver, monitor), (DriverState::Completed, MonitorState::Succeeded));

    let (reports, driver, monitor) = run(&[Step::Match, Step::Progress, Step::Complete]);
    assert_eq!(reports, vec![VERIFIED, INSTALLED]);
    assert_eq!((driver, monitor), (DriverState::Completed, MonitorState::Succeeded));

    let (reports, _, _) = run(&[Step::Progress, Step::Match, Step::Complete, Step::Match, Step::Complete]);
    assert_eq!(reports, vec![VERIFIED, INSTALLED]);
}

#[test]
fn neither_component_waits_for_the_other() {
    let (reports, driver, monitor) = run(&[Step::Timeout, Step::Match]);
    assert_eq!(reports, vec![UNVERIFIED]);
    assert_eq!(driver, DriverState::Streaming);
    assert!(matches!(monitor, MonitorState::Failed(_)));

    let (reports, driver, monitor) = run(&[Step::Progress, Step::Complete]);
    assert_eq!(reports, vec![INSTALLED]);
    assert_eq!((driver, monitor), (DriverState::Completed, MonitorState::Watching));
}

#[test]
fn the_outcome_of_one_does_not_change_the_other() {
    let (reports, _, _) = run(&[Step::Timeout, Step::Complete]);
    assert_eq!(reports, vec![UNVERIFIED, INSTALLED]);
    let (reports, _, _) = run(&[Step::Complete, Step::Timeout]);
    assert_eq!(reports, vec![INSTALLED, UNVERIFIED]);
}
