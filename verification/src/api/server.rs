//! What the API server reports of itself: its address, its description, its
//! token check and its health.

use vstd::prelude::*;
use crate::config::ApiConfig;
use crate::logging::formatter::{decimal, push_decimal};
use crate::mining::MiningState;
use crate::text::str_equal;

verus! {

/// A description of the running API.
#[derive(Debug, Clone)]
pub struct ApiInfo {
    pub version: String,
    pub name: String,
    pub description: String,
    pub running: bool,
    pub address: String,
    pub url: String,
    pub auth_required: bool,
    pub cors_enabled: bool,
    pub allowed_origins: Vec<String>,
}

/// Request counters of the API.
#[derive(Debug, Clone, Copy)]
pub struct ApiStats {
    pub uptime: std::time::Duration,
    pub total_requests: u64,
    pub active_connections: u32,
    pub error_count: u64,
    pub average_response_time: std::time::Duration,
}

/// Health of the API server and of the mining manager.
#[derive(Debug, Clone)]
pub struct HealthStatus {
    pub api_server: bool,
    pub mining_manager: bool,
    pub overall: bool,
    /// Milliseconds since the Unix epoch at which the health was taken.
    pub timestamp: u64,
}

/// `host:port` of the configured listening address.
pub open spec fn address_text(config: ApiConfig) -> Seq<char> {
    config.bind_address@ + ":"@ + decimal(config.port as nat)
}

/// The address to listen on, as `host:port`.
pub fn server_address(config: &ApiConfig) -> (r: String)
    ensures
        r@ == address_text(*config),
{
    let mut s = config.bind_address.clone();
    s.append(":");
    push_decimal(&mut s, config.port as u64);
    s
}

/// The base URL of the API, `http://host:port`.
pub fn server_url(config: &ApiConfig) -> (r: String)
    ensures
        r@ == "http://"@ + address_text(*config),
{
    let mut s = String::from_str("http://");
    s.append(config.bind_address.as_str());
    s.append(":");
    push_decimal(&mut s, config.port as u64);
    s
}

/// Whether a request presenting `token` passes the configured token check:
/// with no token configured every request passes; otherwise the request must
/// present the configured token.
pub fn validate_auth_token(config: &ApiConfig, token: Option<&str>) -> (r: bool)
    ensures
        r == match (config.auth_token, token) {
            (Some(expected), Some(provided)) => expected@ == provided@,
            (None, _) => true,
            (Some(_), None) => false,
        },
{
    match (&config.auth_token, token) {
        (Some(expected), Some(provided)) => str_equal(expected.as_str(), provided),
        (None, _) => true,
        (Some(_), None) => false,
    }
}

/// A copy of a list of texts.
fn clone_texts(v: &Vec<String>) -> (r: Vec<String>)
    ensures
        r@ == v@,
{
    let mut r: Vec<String> = Vec::new();
    let mut i: usize = 0;
    while i < v.len()
        invariant
            i <= v@.len(),
            r@ == v@.subrange(0, i as int),
        decreases v@.len() - i,
    {
        r.push(v[i].clone());
        i = i + 1;
    }
    assert(v@.subrange(0, v@.len() as int) =~= v@);
    r
}

/// The description of an API server with configuration `config` and program
/// version `version`, running or not.
pub fn api_info(config: &ApiConfig, version: &str, running: bool) -> (r: ApiInfo)
    ensures
        r.version@ == version@,
        r.name@ == "CGMiner-RS API"@,
        r.description@ == "High-performance ASIC Bitcoin miner API"@,
        r.running == running,
        r.address@ == address_text(*config),
        r.url@ == "http://"@ + address_text(*config),
        r.auth_required == config.auth_token.is_some(),
        r.cors_enabled == (config.allow_origins@.len() > 0),
        r.allowed_origins@ == config.allow_origins@,
{
    ApiInfo {
        version: String::from_str(version),
        name: String::from_str("CGMiner-RS API"),
        description: String::from_str("High-performance ASIC Bitcoin miner API"),
        running,
        address: server_address(config),
        url: server_url(config),
        auth_required: config.auth_token.is_some(),
        cors_enabled: config.allow_origins.len() > 0,
        allowed_origins: clone_texts(&config.allow_origins),
    }
}

/// The health record: the mining manager is healthy unless it is in its
/// error state, and the whole is healthy when both parts are.
pub fn health_status(api_running: bool, mining_state: &MiningState, timestamp: u64) -> (r: HealthStatus)
    ensures
        r.api_server == api_running,
        r.mining_manager == !(*mining_state is Error),
        r.overall == (api_running && !(*mining_state is Error)),
        r.timestamp == timestamp,
{
    let manager_ok = match mining_state {
        MiningState::Error(_) => false,
        _ => true,
    };
    HealthStatus {
        api_server: api_running,
        mining_manager: manager_ok,
        overall: api_running && manager_ok,
        timestamp,
    }
}


/// The origins cross-origin requests are accepted from.
#[derive(Debug, Clone, PartialEq, Eq)]
pub enum CorsOrigins {
    /// Any origin: the list holds `*`.
    Any,
    /// Exactly the listed origins.
    List(Vec<String>),
}

/// The origins to accept from the configured list: any origin when the list
/// holds `*`, otherwise the listed ones, in order.
pub fn cors_origins(allow_origins: &Vec<String>) -> (r: CorsOrigins)
    ensures
        (exists|i: int| 0 <= i < allow_origins@.len() && allow_origins@[i]@ == "*"@) ==> r is Any,
        !(exists|i: int| 0 <= i < allow_origins@.len() && allow_origins@[i]@ == "*"@)
            ==> (r matches CorsOrigins::List(l) && l@ == allow_origins@),
{
    let mut i: usize = 0;
    while i < allow_origins.len()
        invariant
            i <= allow_origins@.len(),
            forall|j: int| 0 <= j < i ==> (#[trigger] allow_origins@[j])@ != "*"@,
        decreases allow_origins@.len() - i,
    {
        if str_equal(allow_origins[i].as_str(), "*") {
            return CorsOrigins::Any;
        }
        i = i + 1;
    }
    let mut list: Vec<String> = Vec::new();
    let mut k: usize = 0;
    while k < allow_origins.len()
        invariant
            k <= allow_origins@.len(),
            list@ == allow_origins@.subrange(0, k as int),
        decreases allow_origins@.len() - k,
    {
        list.push(allow_origins[k].clone());
        proof {
            assert(allow_origins@.subrange(0, k + 1) =~= allow_origins@.subrange(0, k as int).push(allow_origins@[k as int]));
        }
        k = k + 1;
    }
    assert(allow_origins@.subrange(0, k as int) =~= allow_origins@);
    CorsOrigins::List(list)
}
} // verus!
