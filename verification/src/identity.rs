//! The device identity guard: nothing is installed unless the attached device
//! is the one the bundle was requested for.

use vstd::prelude::*;
use vstd::string::StringExecFns;

verus! {

/// A snapshot of the attached device, taken once per operation.
pub struct DeviceDescriptor {
    /// The model identifier.
    pub model: String,
    /// The version of the operating system.
    pub os_version: String,
}

/// What the caller asks to install, and for which device.
pub struct BundleRequest {
    /// The model the bundle is meant for.
    pub device_model: String,
    /// The OS version the bundle is meant for.
    pub ios_version: String,
    /// The name of the bundle.
    pub bundle_name: String,
}

/// Why the guard refused to go on.
#[derive(Clone, Copy, Debug, PartialEq, Eq, Structural)]
pub enum GuardError {
    /// No device is attached.
    DeviceNotFound,
    /// The attached device is not the one the request names.
    IdentityMismatch,
}

impl BundleRequest {
    /// Whether `device` is exactly the device this request names.
    pub open spec fn names(self, device: DeviceDescriptor) -> bool {
        self.device_model@ == device.model@ && self.ios_version@ == device.os_version@
    }

    /// Tells whether `device` is exactly the device this request names:
    /// model and OS version must both be equal.
    pub fn is_for(&self, device: &DeviceDescriptor) -> (same: bool)
        ensures
            same == self.names(*device),
    {
        self.device_model == device.model && self.ios_version == device.os_version
    }

    /// The diagnostic text for a mismatch: the requested identity, then the
    /// attached one.
    pub open spec fn spec_mismatch_message(self, device: DeviceDescriptor) -> Seq<char> {
        "Model or iOS version mismatch: expected "@ + self.device_model@ + ":"@ + self.ios_version@
            + ", connected "@ + device.model@ + ":"@ + device.os_version@
    }

    /// Builds the diagnostic text for a mismatch, with both the requested
    /// and the attached identity.
    pub fn mismatch_message(&self, device: &DeviceDescriptor) -> (text: String)
        ensures
            text@ == self.spec_mismatch_message(*device),
    {
        let mut text = String::from_str("Model or iOS version mismatch: expected ");
        text.append(self.device_model.as_str());
        text.append(":");
        text.append(self.ios_version.as_str());
        text.append(", connected ");
        text.append(device.model.as_str());
        text.append(":");
        text.append(device.os_version.as_str());
        text
    }
}

/// The guard's verdict on a request, given what the device query found.
pub open spec fn guard_verdict(request: BundleRequest, device: Option<DeviceDescriptor>) -> Result<
    (),
    GuardError,
> {
    match device {
        None => Err(GuardError::DeviceNotFound),
        Some(found) => if request.names(found) {
            Ok(())
        } else {
            Err(GuardError::IdentityMismatch)
        },
    }
}

/// Decides whether an installation may proceed: only when a device is
/// attached and its model and OS version both equal the requested ones.
pub fn check_identity(request: &BundleRequest, device: &Option<DeviceDescriptor>) -> (verdict:
    Result<(), GuardError>)
    ensures
        verdict == guard_verdict(*request, *device),
{
    match device {
        None => Err(GuardError::DeviceNotFound),
        Some(found) => if request.is_for(found) {
            Ok(())
        } else {
            Err(GuardError::IdentityMismatch)
        },
    }
}

} // verus!
