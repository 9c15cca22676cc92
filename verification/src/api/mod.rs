//! The HTTP API's data: responses, update requests, authentication and the
//! server's descriptive records.

pub mod auth;
pub mod handlers;
pub mod server;
pub mod websocket;

use vstd::prelude::*;
use crate::clock::now_secs;

verus! {

/// The envelope of every API answer.
#[derive(Debug, Clone)]
pub struct ApiResponse<T> {
    pub success: bool,
    pub data: Option<T>,
    pub error: Option<String>,
    /// Seconds since the Unix epoch at which the answer was made.
    pub timestamp: u64,
}

impl<T> ApiResponse<T> {
    /// A successful answer carrying `data`, stamped `now` (seconds since the
    /// Unix epoch).
    pub fn success_at(data: T, now: u64) -> (r: Self)
        ensures
            r.success,
            r.data == Some(data),
            r.error.is_none(),
            r.timestamp == now,
    {
        ApiResponse { success: true, data: Some(data), error: None, timestamp: now }
    }

    /// A failed answer carrying the message `error`, stamped `now` (seconds
    /// since the Unix epoch).
    pub fn error_at(error: String, now: u64) -> (r: Self)
        ensures
            !r.success,
            r.data.is_none(),
            r.error == Some(error),
            r.timestamp == now,
    {
        ApiResponse { success: false, data: None, error: Some(error), timestamp: now }
    }

    /// A successful answer carrying `data`, stamped with the current time.
    pub fn success(data: T) -> (r: Self)
        ensures
            r.success,
            r.data == Some(data),
            r.error.is_none(),
    {
        ApiResponse::success_at(data, now_secs())
    }

    /// A failed answer carrying the message `error`, stamped with the current
    /// time.
    pub fn error(error: String) -> (r: Self)
        ensures
            !r.success,
            r.data.is_none(),
            r.error == Some(error),
    {
        ApiResponse::error_at(error, now_secs())
    }
}

/// A requested change to one device's settings; absent fields stay as they
/// are.
#[derive(Debug, Clone)]
pub struct DeviceConfigUpdate {
    pub device_id: u32,
    pub enabled: Option<bool>,
    pub frequency: Option<u32>,
    pub voltage: Option<u32>,
    pub auto_tune: Option<bool>,
}

/// A requested change to one pool's settings; absent fields stay as they are.
#[derive(Debug, Clone)]
pub struct PoolConfigUpdate {
    pub pool_id: u32,
    pub enabled: Option<bool>,
    pub priority: Option<u8>,
    pub url: Option<String>,
    pub user: Option<String>,
    pub password: Option<String>,
}

} // verus!
