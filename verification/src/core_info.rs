//! The description of the CPU mining core that this library provides.

use vstd::prelude::*;
use crate::config_validator::texts;

verus! {

/// The kind of a mining core; the CPU core is a custom kind with its own
/// name.
#[derive(Debug, Clone, PartialEq, Eq)]
pub enum CoreType {
    Custom(String),
}

/// What a mining core says of itself.
#[derive(Debug, Clone)]
pub struct CoreInfo {
    pub name: String,
    pub core_type: CoreType,
    pub version: String,
    pub description: String,
    pub author: String,
    pub supported_devices: Vec<String>,
}

/// The description of the CPU Bitcoin mining core: its name, the custom kind
/// `cpu_btc`, the library's version, what it offers, its authors and the
/// devices it drives (`cpu`, `btc`, `sha256`).
pub fn get_core_info() -> (r: CoreInfo)
    ensures
        r.name@ == "CPU Bitcoin Mining Core"@,
        r.core_type matches CoreType::Custom(t) && t@ == "cpu_btc"@,
        r.version@ == "0.1.0"@,
        r.description@ == "高性能CPU比特币挖矿核心，支持真实SHA256算法、无锁并发和智能调度"@,
        r.author@ == "CGMiner Rust Team"@,
        texts(r.supported_devices@) == seq!["cpu"@, "btc"@, "sha256"@],
{
    let mut devices: Vec<String> = Vec::new();
    devices.push(String::from_str("cpu"));
    devices.push(String::from_str("btc"));
    devices.push(String::from_str("sha256"));
    assert(texts(devices@) =~= seq!["cpu"@, "btc"@, "sha256"@]);
    CoreInfo {
        name: String::from_str("CPU Bitcoin Mining Core"),
        core_type: CoreType::Custom(String::from_str("cpu_btc")),
        version: String::from_str("0.1.0"),
        description: String::from_str("高性能CPU比特币挖矿核心，支持真实SHA256算法、无锁并发和智能调度"),
        author: String::from_str("CGMiner Rust Team"),
        supported_devices: devices,
    }
}

} // verus!
