//! Error kinds of the miner, the recovery policy attached to them and the
//! running error counters.

use vstd::prelude::*;

verus! {

/// How the miner reacts to an error.
#[derive(Debug, Clone, PartialEq, Eq)]
pub enum RecoveryStrategy {
    /// Retry the operation.
    Retry { max_attempts: u32, delay_ms: u64 },
    /// Restart the device.
    RestartDevice { device_id: u32 },
    /// Switch to the backup pool.
    SwitchPool,
    /// Disable the device.
    DisableDevice { device_id: u32 },
    /// Shut down gracefully.
    GracefulShutdown,
    /// Stop at once.
    ImmediateStop,
    /// Ignore the error.
    Ignore,
}

/// Device level failures.
///
/// An overheating report carries the device only: the measured temperature is
/// a floating point reading that the application layer keeps beside it.
#[derive(Debug, Clone, PartialEq, Eq)]
pub enum DeviceError {
    NotFound { device_id: u32 },
    InitializationFailed { device_id: u32, reason: String },
    CommunicationError { device_id: u32, error: String },
    Overheated { device_id: u32 },
    HardwareError { device_id: u32, error_code: u32 },
    ChainError { chain_id: u8, error: String },
    ChipError { chain_id: u8, chip_id: u8, error: String },
    InvalidConfig { reason: String },
    Timeout { device_id: u32 },
    InvalidState { device_id: u32, state: String },
}

/// Pool level failures.
#[derive(Debug, Clone, PartialEq, Eq)]
pub enum PoolError {
    ConnectionFailed { url: String, error: String },
    AuthenticationFailed { url: String },
    ProtocolError { url: String, error: String },
    NoPoolsAvailable,
    Timeout { url: String },
    InvalidUrl { url: String },
    ShareRejected { reason: String },
    StratumError { error_code: i32, message: String },
}

/// Work queue failures.
#[derive(Debug, Clone, PartialEq, Eq)]
pub enum WorkError {
    QueueFull,
    QueueEmpty,
    InvalidData { reason: String },
    Expired { work_id: String },
    NotFound { work_id: String },
    Duplicate { work_id: String },
    ProcessingError { error: String },
}

/// Configuration failures.
#[derive(Debug, Clone, PartialEq, Eq)]
pub enum ConfigError {
    FileNotFound { path: String },
    ParseError { error: String },
    ValidationError { field: String, reason: String },
    MissingField { field: String },
    InvalidValue { field: String, value: String, reason: String },
}

/// Network failures.
#[derive(Debug, Clone, PartialEq, Eq)]
pub enum NetworkError {
    Timeout { address: String },
    DnsResolutionFailed { hostname: String },
    TlsError { error: String },
    SocketError { error: String },
    HttpError { status_code: u16, message: String },
    WebSocketError { error: String },
}

/// API server failures.
#[derive(Debug, Clone, PartialEq, Eq)]
pub enum ApiError {
    ServerStartFailed { error: String },
    AuthenticationRequired,
    InvalidRequest { reason: String },
    ResourceNotFound { resource: String },
    MethodNotAllowed { method: String },
    RateLimitExceeded,
    InternalError { error: String },
}

/// Any failure of the miner.
#[derive(Debug, Clone, PartialEq, Eq)]
pub enum MiningError {
    Device(DeviceError),
    Pool(PoolError),
    Work(WorkError),
    Config(ConfigError),
    Hardware(String),
    System(String),
    Network(NetworkError),
    Api(ApiError),
    /// A failure of a mining core.
    CoreError(String),
}

/// The recovery policy for device failures.
pub open spec fn device_recovery(e: DeviceError) -> RecoveryStrategy {
    match e {
        DeviceError::CommunicationError { .. } => RecoveryStrategy::Retry { max_attempts: 3, delay_ms: 1000 },
        DeviceError::Timeout { .. } => RecoveryStrategy::Retry { max_attempts: 2, delay_ms: 500 },
        DeviceError::Overheated { device_id } => RecoveryStrategy::DisableDevice { device_id },
        DeviceError::HardwareError { device_id, .. } => RecoveryStrategy::RestartDevice { device_id },
        DeviceError::InitializationFailed { .. } => RecoveryStrategy::Retry { max_attempts: 5, delay_ms: 2000 },
        _ => RecoveryStrategy::Ignore,
    }
}

/// The recovery policy for pool failures.
pub open spec fn pool_recovery(e: PoolError) -> RecoveryStrategy {
    match e {
        PoolError::ConnectionFailed { .. } => RecoveryStrategy::Retry { max_attempts: 3, delay_ms: 5000 },
        PoolError::NoPoolsAvailable => RecoveryStrategy::GracefulShutdown,
        _ => RecoveryStrategy::SwitchPool,
    }
}

impl DeviceError {
    /// The reaction that this failure calls for.
    pub fn recovery_strategy(&self) -> (r: RecoveryStrategy)
        ensures
            r == device_recovery(*self),
    {
        match self {
            DeviceError::CommunicationError { .. } => RecoveryStrategy::Retry { max_attempts: 3, delay_ms: 1000 },
            DeviceError::Timeout { .. } => RecoveryStrategy::Retry { max_attempts: 2, delay_ms: 500 },
            DeviceError::Overheated { device_id } => RecoveryStrategy::DisableDevice { device_id: *device_id },
            DeviceError::HardwareError { device_id, .. } => RecoveryStrategy::RestartDevice { device_id: *device_id },
            DeviceError::InitializationFailed { .. } => RecoveryStrategy::Retry { max_attempts: 5, delay_ms: 2000 },
            _ => RecoveryStrategy::Ignore,
        }
    }
}

impl PoolError {
    /// The reaction that this failure calls for.
    pub fn recovery_strategy(&self) -> (r: RecoveryStrategy)
        ensures
            r == pool_recovery(*self),
    {
        match self {
            PoolError::ConnectionFailed { .. } => RecoveryStrategy::Retry { max_attempts: 3, delay_ms: 5000 },
            PoolError::Timeout { .. } => RecoveryStrategy::SwitchPool,
            PoolError::AuthenticationFailed { .. } => RecoveryStrategy::SwitchPool,
            PoolError::NoPoolsAvailable => RecoveryStrategy::GracefulShutdown,
            _ => RecoveryStrategy::SwitchPool,
        }
    }
}

/// Counters of the errors seen so far, by category.
#[derive(Debug, Clone, PartialEq, Eq)]
pub struct ErrorStats {
    pub device_errors: u64,
    pub pool_errors: u64,
    pub work_errors: u64,
    pub network_errors: u64,
    pub total_errors: u64,
}

impl ErrorStats {
    /// The categorised counters never add up to more than the total.
    pub open spec fn well_formed(&self) -> bool {
        self.device_errors + self.pool_errors + self.work_errors + self.network_errors
            <= self.total_errors
    }

    /// All counters at zero.
    pub fn new() -> (s: Self)
        ensures
            s.device_errors == 0 && s.pool_errors == 0 && s.work_errors == 0,
            s.network_errors == 0 && s.total_errors == 0,
            s.well_formed(),
    {
        ErrorStats { device_errors: 0, pool_errors: 0, work_errors: 0, network_errors: 0, total_errors: 0 }
    }

    /// Counts one error: the total always, and the category of device, pool,
    /// work and network errors; the other kinds count in the total only.
    pub fn record_error(&mut self, error: &MiningError)
        requires
            old(self).total_errors < u64::MAX,
            old(self).device_errors < u64::MAX,
            old(self).pool_errors < u64::MAX,
            old(self).work_errors < u64::MAX,
            old(self).network_errors < u64::MAX,
        ensures
            final(self).total_errors == old(self).total_errors + 1,
            final(self).device_errors == old(self).device_errors + (if error is Device { 1int } else { 0 }),
            final(self).pool_errors == old(self).pool_errors + (if error is Pool { 1int } else { 0 }),
            final(self).work_errors == old(self).work_errors + (if error is Work { 1int } else { 0 }),
            final(self).network_errors == old(self).network_errors + (if error is Network { 1int } else { 0 }),
            old(self).well_formed() ==> final(self).well_formed(),
    {
        self.total_errors = self.total_errors + 1;
        match error {
            MiningError::Device(_) => self.device_errors = self.device_errors + 1,
            MiningError::Pool(_) => self.pool_errors = self.pool_errors + 1,
            MiningError::Work(_) => self.work_errors = self.work_errors + 1,
            MiningError::Network(_) => self.network_errors = self.network_errors + 1,
            _ => {},
        }
    }

    /// Back to all zeros.
    pub fn reset(&mut self)
        ensures
            *final(self) == ErrorStats::new_spec(),
    {
        *self = ErrorStats::new();
    }

    /// The counters of a fresh or reset record.
    pub open spec fn new_spec() -> ErrorStats {
        ErrorStats { device_errors: 0, pool_errors: 0, work_errors: 0, network_errors: 0, total_errors: 0 }
    }
}

} // verus!
