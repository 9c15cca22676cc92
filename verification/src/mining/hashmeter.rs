//! Settings of the hash rate meter.

use vstd::prelude::*;

verus! {

/// Settings of the hash rate meter.
#[derive(Debug, Clone)]
pub struct HashmeterConfig {
    pub enabled: bool,
    /// Seconds between log lines.
    pub log_interval: u64,
    pub per_device_stats: bool,
    pub console_output: bool,
    /// The unit of display; "AUTO" picks one by size.
    pub hashrate_unit: String,
}

/// The default settings: on, every 5 seconds, per device, on the console,
/// unit chosen automatically.
pub open spec fn is_default_hashmeter(h: HashmeterConfig) -> bool {
    h.enabled && h.log_interval == 5 && h.per_device_stats && h.console_output && h.hashrate_unit@ == "AUTO"@
}

impl HashmeterConfig {
    /// The default settings.
    pub fn new() -> (h: HashmeterConfig)
        ensures
            is_default_hashmeter(h),
    {
        HashmeterConfig {
            enabled: true,
            log_interval: 5,
            per_device_stats: true,
            console_output: true,
            hashrate_unit: String::from_str("AUTO"),
        }
    }
}

impl Default for HashmeterConfig {
    fn default() -> (h: HashmeterConfig)
        ensures
            is_default_hashmeter(h),
    {
        HashmeterConfig::new()
    }
}

} // verus!
