//! States and classifications shared by device drivers.

use vstd::prelude::*;

verus! {

/// The state of a chain of ASIC chips.
#[derive(Debug, Clone, PartialEq, Eq)]
pub enum ChainStatus {
    Uninitialized,
    Initializing,
    Idle,
    Working,
    Error(String),
    Disabled,
}

/// What a device alert is about.
#[derive(Debug, Clone, Copy, PartialEq, Eq)]
pub enum AlertType {
    Temperature,
    Hashrate,
    ErrorRate,
    PowerConsumption,
    DeviceOffline,
    HardwareError,
}

/// How serious a device alert is.
#[derive(Debug, Clone, Copy, PartialEq, Eq)]
pub enum AlertSeverity {
    Info,
    Warning,
    Critical,
    Emergency,
}

} // verus!
