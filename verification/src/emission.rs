//! Outcomes reported to the notification sink.

use vstd::prelude::*;
use vstd::string::StringExecFns;

verus! {

/// The two channels on which an outcome is reported.
#[derive(Clone, Copy, Debug, PartialEq, Eq, Structural)]
pub enum EventName {
    /// Reported by the identity guard and by the installation driver.
    CarrierBundleInstallStatus,
    /// Reported by the outcome monitor.
    InstallationSucceedStatus,
}

/// One boolean outcome on one channel: `true` is success, `false` is failure
/// or an indeterminate result.
#[derive(Clone, Copy, Debug, PartialEq, Eq, Structural)]
pub struct Emission {
    pub event: EventName,
    pub payload: bool,
}

impl EventName {
    /// The channel's name as the sink knows it.
    pub open spec fn spec_name(self) -> Seq<char> {
        match self {
            EventName::CarrierBundleInstallStatus => "carrier_bundle_install_status"@,
            EventName::InstallationSucceedStatus => "installation_succeed_status"@,
        }
    }

    /// Returns the channel's name as the sink knows it.
    pub fn name(&self) -> (s: String)
        ensures
            s@ == self.spec_name(),
    {
        match self {
            EventName::CarrierBundleInstallStatus => String::from_str(
                "carrier_bundle_install_status",
            ),
            EventName::InstallationSucceedStatus => String::from_str("installation_succeed_status"),
        }
    }
}

impl Emission {
    /// The outcome of the install channel with the given payload.
    pub open spec fn spec_install(payload: bool) -> Emission {
        Emission { event: EventName::CarrierBundleInstallStatus, payload }
    }

    /// The outcome of the verification channel with the given payload.
    pub open spec fn spec_verification(payload: bool) -> Emission {
        Emission { event: EventName::InstallationSucceedStatus, payload }
    }

    /// Builds an outcome for the install channel.
    pub fn install(payload: bool) -> (e: Emission)
        ensures
            e == Emission::spec_install(payload),
    {
        Emission { event: EventName::CarrierBundleInstallStatus, payload }
    }

    /// Builds an outcome for the verification channel.
    pub fn verification(payload: bool) -> (e: Emission)
        ensures
            e == Emission::spec_verification(payload),
    {
        Emission { event: EventName::InstallationSucceedStatus, payload }
    }
}

} // verus!
