//! Installation of a carrier configuration bundle onto an attached device,
//! and detection of whether the installed configuration took effect.
//!
//! The crate holds the decisions of that protocol as verified state machines:
//! every function maps plain values to plain values, and the caller performs
//! the device and network work that the returned actions ask for.

pub mod attempt;
pub mod driver;
pub mod emission;
pub mod identity;
pub mod monitor;
pub mod session;
pub mod status;
pub mod transcode;
