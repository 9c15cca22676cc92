//! Parameters of the listing endpoints.

use vstd::prelude::*;
use crate::logging::formatter::{decimal, push_decimal};
use crate::text::str_equal;

verus! {

/// Paging, sorting and filtering asked of a listing.
#[derive(Debug, Clone)]
pub struct QueryParams {
    pub limit: Option<usize>,
    pub offset: Option<usize>,
    pub sort: Option<String>,
    pub filter: Option<String>,
}

} // verus!

verus! {

/// The outcome of a control command.
#[derive(Debug, Clone)]
pub struct ControlOutcome {
    pub command: String,
    pub success: bool,
    pub message: String,
}

/// The message answering a control command: the five known commands succeed,
/// any other is unknown.
pub open spec fn control_message(command: Seq<char>) -> (bool, Seq<char>) {
    if command == "start"@ {
        (true, "Mining started successfully"@)
    } else if command == "stop"@ {
        (true, "Mining stopped successfully"@)
    } else if command == "restart"@ {
        (true, "Mining restarted successfully"@)
    } else if command == "pause"@ {
        (true, "Mining paused successfully"@)
    } else if command == "resume"@ {
        (true, "Mining resumed successfully"@)
    } else {
        (false, "Unknown command: "@ + command)
    }
}

/// Answers a control command.
pub fn control_command(command: &str) -> (r: ControlOutcome)
    ensures
        r.command@ == command@,
        (r.success, r.message@) == control_message(command@),
{
    let (success, message) = if str_equal(command, "start") {
        (true, String::from_str("Mining started successfully"))
    } else if str_equal(command, "stop") {
        (true, String::from_str("Mining stopped successfully"))
    } else if str_equal(command, "restart") {
        (true, String::from_str("Mining restarted successfully"))
    } else if str_equal(command, "pause") {
        (true, String::from_str("Mining paused successfully"))
    } else if str_equal(command, "resume") {
        (true, String::from_str("Mining resumed successfully"))
    } else {
        let mut m = String::from_str("Unknown command: ");
        m.append(command);
        (false, m)
    };
    ControlOutcome { command: String::from_str(command), success, message }
}

/// `prefix`, the number, then `suffix`.
pub open spec fn numbered(prefix: Seq<char>, n: u32, suffix: Seq<char>) -> Seq<char> {
    prefix + decimal(n as nat) + suffix
}

fn numbered_text(prefix: &str, n: u32, suffix: &str) -> (r: String)
    ensures
        r@ == numbered(prefix@, n, suffix@),
{
    let mut s = String::from_str(prefix);
    push_decimal(&mut s, n as u64);
    s.append(suffix);
    s
}

/// The answer to a restart of device `device_id`: the two known devices
/// restart, any other is not found.
pub fn restart_device(device_id: u32) -> (r: Result<String, String>)
    ensures
        device_id > 1 ==> (r matches Err(m) && m@ == numbered("Device "@, device_id, " not found"@)),
        device_id <= 1 ==> (r matches Ok(m) && m@ == numbered("Device "@, device_id, " restart initiated"@)),
{
    if device_id > 1 {
        Err(numbered_text("Device ", device_id, " not found"))
    } else {
        Ok(numbered_text("Device ", device_id, " restart initiated"))
    }
}

/// The answer to a settings change of device `device_id`.
pub fn update_device_config(device_id: u32) -> (r: Result<String, String>)
    ensures
        device_id > 1 ==> (r matches Err(m) && m@ == numbered("Device "@, device_id, " not found"@)),
        device_id <= 1 ==> (r matches Ok(m) && m@ == numbered("Device "@, device_id, " configuration updated"@)),
{
    if device_id > 1 {
        Err(numbered_text("Device ", device_id, " not found"))
    } else {
        Ok(numbered_text("Device ", device_id, " configuration updated"))
    }
}

/// The answer to a settings change of pool `pool_id`.
pub fn update_pool_config(pool_id: u32) -> (r: Result<String, String>)
    ensures
        pool_id > 1 ==> (r matches Err(m) && m@ == numbered("Pool "@, pool_id, " not found"@)),
        pool_id <= 1 ==> (r matches Ok(m) && m@ == numbered("Pool "@, pool_id, " configuration updated"@)),
{
    if pool_id > 1 {
        Err(numbered_text("Pool ", pool_id, " not found"))
    } else {
        Ok(numbered_text("Pool ", pool_id, " configuration updated"))
    }
}

/// The state of a pool as the API reports it; the difficulty is the bit
/// pattern of a double-precision value and times are seconds since the Unix
/// epoch.
#[derive(Debug, Clone)]
pub struct PoolStatusReport {
    pub pool_id: u32,
    pub url: String,
    pub status: String,
    pub priority: u8,
    pub accepted_shares: u64,
    pub rejected_shares: u64,
    pub stale_shares: u64,
    pub difficulty_bits: u64,
    pub ping: Option<u64>,
    pub connected_at: Option<u64>,
}

/// The bit pattern of the double-precision value 1024.0.
pub const DIFFICULTY_1024_BITS: u64 = 0x4090_0000_0000_0000;

/// The report of pool `pool_id` at `now` seconds since the Unix epoch: pool
/// 0 connected for the last hour, pool 1 disconnected, others not found.
pub fn get_pool(pool_id: u32, now: u64) -> (r: Result<PoolStatusReport, String>)
    requires
        now >= 3600,
    ensures
        pool_id > 1 ==> (r matches Err(m) && m@ == numbered("Pool "@, pool_id, " not found"@)),
        pool_id == 0 ==> (r matches Ok(p) && p.pool_id == 0
            && p.url@ == numbered("stratum+tcp://pool"@, 0, ".example.com:4444"@) && p.status@ == "Connected"@
            && p.priority == 1 && p.accepted_shares == 2430 && p.rejected_shares == 27
            && p.stale_shares == 5 && p.difficulty_bits == DIFFICULTY_1024_BITS
            && p.ping == Some(45u64) && p.connected_at == Some((now - 3600) as u64)),
        pool_id == 1 ==> (r matches Ok(p) && p.pool_id == 1
            && p.url@ == numbered("stratum+tcp://pool"@, 1, ".example.com:4444"@) && p.status@ == "Disconnected"@
            && p.priority == 2 && p.accepted_shares == 0 && p.rejected_shares == 0
            && p.stale_shares == 0 && p.difficulty_bits == 0 && p.ping is None && p.connected_at is None),
{
    if pool_id > 1 {
        return Err(numbered_text("Pool ", pool_id, " not found"));
    }
    let url = numbered_text("stratum+tcp://pool", pool_id, ".example.com:4444");
    let connected = pool_id == 0;
    Ok(PoolStatusReport {
        pool_id,
        url,
        status: if connected { String::from_str("Connected") } else { String::from_str("Disconnected") },
        priority: pool_id as u8 + 1,
        accepted_shares: if connected { 2430 } else { 0 },
        rejected_shares: if connected { 27 } else { 0 },
        stale_shares: if connected { 5 } else { 0 },
        difficulty_bits: if connected { DIFFICULTY_1024_BITS } else { 0 },
        ping: if connected { Some(45) } else { None },
        connected_at: if connected { Some(now - 3600) } else { None },
    })
}

} // verus!
