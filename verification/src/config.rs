//! The miner's configuration: command line arguments, the sections of the
//! configuration file with their defaults, the validation rules and the
//! command line overrides.
//!
//! Floating point settings (hash rates, rates, limits, temperatures) are
//! carried as the bit patterns of their IEEE-754 values; this module moves
//! them around but never compares them.

use vstd::prelude::*;
use crate::logging::formatter::{decimal, push_decimal};

verus! {

/// Command line arguments.
#[derive(Debug, Clone)]
pub struct Args {
    /// Configuration file path.
    pub config: String,
    /// Debug mode.
    pub debug: bool,
    /// API server port.
    pub api_port: u16,
    /// Disable the API server.
    pub no_api: bool,
    /// Log level.
    pub log_level: String,
    /// SOCKS5 proxy URL for pool connections.
    pub proxy: Option<String>,
    /// SOCKS5 proxy user name.
    pub proxy_user: Option<String>,
    /// SOCKS5 proxy password.
    pub proxy_pass: Option<String>,
    /// Pool URL overriding the configuration file.
    pub pool: Option<String>,
    /// Pool user or worker name overriding the configuration file.
    pub user: Option<String>,
    /// Pool password overriding the configuration file.
    pub pass: Option<String>,
}

impl Args {
    /// The arguments of a command line that gives none: configuration file
    /// `cgminer.toml`, API port 4028, log level `info`, nothing else set.
    pub fn new() -> (a: Args)
        ensures
            a.config@ == "cgminer.toml"@,
            !a.debug,
            a.api_port == 4028,
            !a.no_api,
            a.log_level@ == "info"@,
            a.proxy is None && a.proxy_user is None && a.proxy_pass is None,
            a.pool is None && a.user is None && a.pass is None,
    {
        Args {
            config: String::from_str("cgminer.toml"),
            debug: false,
            api_port: 4028,
            no_api: false,
            log_level: String::from_str("info"),
            proxy: None,
            proxy_user: None,
            proxy_pass: None,
            pool: None,
            user: None,
            pass: None,
        }
    }
}

impl Default for Args {
    fn default() -> (a: Args)
        ensures
            a.config@ == "cgminer.toml"@,
            !a.debug,
            a.api_port == 4028,
            !a.no_api,
            a.log_level@ == "info"@,
            a.proxy is None && a.proxy_user is None && a.proxy_pass is None,
            a.pool is None && a.user is None && a.pass is None,
    {
        Args::new()
    }
}

/// General settings.
#[derive(Debug, Clone)]
pub struct GeneralConfig {
    pub log_level: String,
    pub log_file: Option<String>,
    pub pid_file: Option<String>,
    pub work_restart_timeout: u64,
    pub scan_time: u64,
    /// Result collection interval in milliseconds.
    pub result_collection_interval_ms: u64,
}

/// CPU binding of software mining devices.
#[derive(Debug, Clone)]
pub struct CpuAffinityConfig {
    pub enabled: bool,
    /// One of "round_robin", "manual", "performance_first", "physical_only", "intelligent".
    pub strategy: String,
    /// Manual binding: device id to CPU core index.
    pub manual_mapping: Option<Vec<(u32, usize)>>,
    pub avoid_hyperthreading: Option<bool>,
    pub prefer_performance_cores: Option<bool>,
}

/// The software (CPU) Bitcoin core.
#[derive(Debug, Clone)]
pub struct BtcSoftwareCoreConfig {
    pub enabled: bool,
    pub device_count: u32,
    /// Bit pattern of the smallest simulated hash rate (f64, H/s).
    pub min_hashrate_bits: u64,
    /// Bit pattern of the largest simulated hash rate (f64, H/s).
    pub max_hashrate_bits: u64,
    /// Bit pattern of the simulated error rate (f64).
    pub error_rate_bits: u64,
    pub batch_size: u32,
    pub work_timeout_ms: u64,
    pub cpu_affinity: Option<CpuAffinityConfig>,
}

/// The GPU Bitcoin core.
#[derive(Debug, Clone)]
pub struct GpuBtcCoreConfig {
    pub enabled: bool,
    pub device_count: u32,
    /// Bit pattern of the largest hash rate (f64, H/s).
    pub max_hashrate_bits: u64,
    pub work_size: u32,
    pub work_timeout_ms: u64,
}

/// The Maijie L7 ASIC core.
#[derive(Debug, Clone)]
pub struct MaijieL7CoreConfig {
    pub enabled: bool,
    pub chain_count: u32,
    pub spi_speed: u32,
    pub uart_baud: u32,
    pub auto_detect: bool,
    /// Bit pattern of the power limit (f64, W).
    pub power_limit_bits: u64,
    pub cooling_mode: String,
}

/// The mining cores.
#[derive(Debug, Clone)]
pub struct CoresConfig {
    pub enabled_cores: Vec<String>,
    pub default_core: String,
    pub cpu_btc: Option<BtcSoftwareCoreConfig>,
    pub gpu_btc: Option<GpuBtcCoreConfig>,
    pub maijie_l7: Option<MaijieL7CoreConfig>,
}

/// One hashing chain.
#[derive(Debug, Clone, Copy, PartialEq, Eq)]
pub struct ChainConfig {
    pub id: u8,
    pub enabled: bool,
    pub frequency: u32,
    pub voltage: u32,
    pub auto_tune: bool,
    pub chip_count: u32,
}

/// Device settings.
#[derive(Debug, Clone)]
pub struct DeviceConfig {
    pub auto_detect: bool,
    pub scan_interval: u64,
    pub chains: Vec<ChainConfig>,
}

/// How pools are used.
#[derive(Debug, Clone, Copy, PartialEq, Eq)]
pub enum PoolStrategy {
    Failover,
    RoundRobin,
    LoadBalance,
    Quota,
}

impl Default for PoolStrategy {
    fn default() -> (s: PoolStrategy)
        ensures
            s == PoolStrategy::Failover,
    {
        PoolStrategy::Failover
    }
}

/// A SOCKS5 proxy for pool connections.
#[derive(Debug)]
pub struct ProxyConfig {
    /// "socks5" or "socks5+tls".
    pub proxy_type: String,
    pub host: String,
    pub port: u16,
    pub username: Option<String>,
    pub password: Option<String>,
    pub skip_verify: Option<bool>,
    pub server_name: Option<String>,
    pub ca_cert: Option<String>,
    pub client_cert: Option<String>,
    pub client_key: Option<String>,
}

fn clone_text(o: &Option<String>) -> (r: Option<String>)
    ensures
        r == *o,
{
    match o {
        Some(s) => Some(s.clone()),
        None => None,
    }
}

impl Clone for ProxyConfig {
    fn clone(&self) -> (r: Self)
        ensures
            r == *self,
    {
        ProxyConfig {
            proxy_type: self.proxy_type.clone(),
            host: self.host.clone(),
            port: self.port,
            username: clone_text(&self.username),
            password: clone_text(&self.password),
            skip_verify: self.skip_verify,
            server_name: clone_text(&self.server_name),
            ca_cert: clone_text(&self.ca_cert),
            client_cert: clone_text(&self.client_cert),
            client_key: clone_text(&self.client_key),
        }
    }
}

/// One mining pool.
#[derive(Debug, Clone)]
pub struct PoolInfo {
    pub name: Option<String>,
    pub url: String,
    pub username: String,
    pub password: String,
    pub priority: u8,
    pub quota: Option<u32>,
    pub enabled: bool,
    pub proxy: Option<ProxyConfig>,
}

/// Pool settings.
#[derive(Debug, Clone)]
pub struct PoolConfig {
    pub strategy: PoolStrategy,
    pub failover_timeout: u64,
    pub retry_interval: u64,
    pub pools: Vec<PoolInfo>,
}

/// API server settings.
#[derive(Debug, Clone)]
pub struct ApiConfig {
    pub enabled: bool,
    pub bind_address: String,
    pub port: u16,
    pub allow_origins: Vec<String>,
    pub auth_token: Option<String>,
}

/// Alert thresholds, each the bit pattern of its IEEE-754 value.
#[derive(Debug, Clone, Copy, PartialEq, Eq)]
pub struct AlertThresholds {
    pub temperature_warning_bits: u32,
    pub temperature_critical_bits: u32,
    pub hashrate_drop_percent_bits: u32,
    pub error_rate_percent_bits: u32,
    pub max_temperature_bits: u32,
    pub max_cpu_usage_bits: u32,
    pub max_memory_usage_bits: u32,
    pub max_device_temperature_bits: u32,
    pub max_error_rate_bits: u32,
    pub min_hashrate_bits: u64,
}

/// Monitoring settings.
#[derive(Debug, Clone)]
pub struct MonitoringConfig {
    pub enabled: bool,
    pub metrics_interval: u64,
    pub web_port: Option<u16>,
    pub alert_thresholds: AlertThresholds,
}

/// Hash rate optimisation settings, floating point values as bit patterns.
#[derive(Debug, Clone, Copy, PartialEq, Eq)]
pub struct HashrateOptimizationConfig {
    pub base_hashrate_bits: u64,
    pub hashrate_variance_bits: u64,
    pub frequency_hashrate_factor_bits: u64,
    pub voltage_hashrate_factor_bits: u64,
    pub temperature_impact_factor_bits: u64,
    pub adaptive_adjustment: bool,
}

/// Memory optimisation settings.
#[derive(Debug, Clone, Copy, PartialEq, Eq)]
pub struct MemoryOptimizationConfig {
    pub work_cache_size: u32,
    pub result_cache_size: u32,
    pub stats_retention_seconds: u64,
    pub enable_memory_pool: bool,
    pub preallocated_memory_mb: u32,
}

/// Thread optimisation settings.
#[derive(Debug, Clone)]
pub struct ThreadOptimizationConfig {
    pub worker_threads_per_device: u32,
    pub thread_priority: String,
    pub thread_stack_size_kb: u32,
    pub enable_thread_pool: bool,
}

/// Batch optimisation settings.
#[derive(Debug, Clone, Copy, PartialEq, Eq)]
pub struct BatchOptimizationConfig {
    pub default_batch_size: u32,
    pub min_batch_size: u32,
    pub max_batch_size: u32,
    pub adaptive_batch_size: bool,
    pub batch_timeout_ms: u64,
}

/// Network optimisation settings.
#[derive(Debug, Clone, Copy, PartialEq, Eq)]
pub struct NetworkOptimizationConfig {
    pub connection_pool_size: u32,
    pub request_timeout_ms: u64,
    pub max_concurrent_requests: u32,
    pub keepalive_interval: u64,
}

/// Performance settings.
#[derive(Debug, Clone)]
pub struct PerformanceConfig {
    pub hashrate_optimization: Option<HashrateOptimizationConfig>,
    pub memory_optimization: Option<MemoryOptimizationConfig>,
    pub thread_optimization: Option<ThreadOptimizationConfig>,
    pub batch_optimization: Option<BatchOptimizationConfig>,
    pub network_optimization: Option<NetworkOptimizationConfig>,
}

/// Resource limits.
#[derive(Debug, Clone, Copy, PartialEq, Eq)]
pub struct LimitsConfig {
    pub max_memory_mb: u64,
    /// Bit pattern of the CPU limit in percent (f64).
    pub max_cpu_percent_bits: u64,
    pub max_open_files: u32,
    pub max_network_connections: u32,
}

/// Logging settings of the configuration file.
#[derive(Debug, Clone)]
pub struct LoggingConfig {
    pub level: String,
    pub file: String,
    pub max_size: String,
    pub max_files: u32,
    pub console: bool,
    pub json_format: bool,
    pub rotation: String,
}

/// The whole configuration.
#[derive(Debug, Clone)]
pub struct Config {
    pub general: GeneralConfig,
    pub cores: CoresConfig,
    pub devices: DeviceConfig,
    pub pools: PoolConfig,
    pub api: ApiConfig,
    pub monitoring: MonitoringConfig,
    pub hashmeter: crate::mining::hashmeter::HashmeterConfig,
    pub performance: Option<PerformanceConfig>,
    pub limits: Option<LimitsConfig>,
    pub logging: Option<LoggingConfig>,
}

/// The default chain: enabled at 500 MHz and 850 mV with 76 chips, auto tuned.
pub open spec fn is_default_chain(c: ChainConfig, id: u8) -> bool {
    c == ChainConfig { id, enabled: true, frequency: 500, voltage: 850, auto_tune: true, chip_count: 76 }
}

/// The default CPU binding: round robin, hyperthreads allowed, performance
/// cores preferred.
pub open spec fn is_default_affinity(a: CpuAffinityConfig) -> bool {
    a.enabled && a.strategy@ == "round_robin"@ && a.manual_mapping is None
        && a.avoid_hyperthreading == Some(false) && a.prefer_performance_cores == Some(true)
}

/// The default software core: four devices between 1 and 5 GH/s with a 1%
/// error rate, batches of 1000, 5 s work timeout.
pub open spec fn is_default_cpu_btc(b: BtcSoftwareCoreConfig) -> bool {
    &&& b.enabled && b.device_count == 4
    &&& b.min_hashrate_bits == 0x41cd_cd65_0000_0000 && b.max_hashrate_bits == 0x41f2_a05f_2000_0000
    &&& b.error_rate_bits == 0x3f84_7ae1_47ae_147b && b.batch_size == 1000 && b.work_timeout_ms == 5000
    &&& b.cpu_affinity matches Some(a) && is_default_affinity(a)
}

/// The settings of the default configuration.
pub open spec fn is_default_config(c: Config) -> bool {
    &&& c.general.log_level@ == "info"@
    &&& c.general.log_file is None
    &&& c.general.pid_file matches Some(p) && p@ == "/tmp/cgminer-rs.pid"@
    &&& c.general.work_restart_timeout == 60 && c.general.scan_time == 30
    &&& c.general.result_collection_interval_ms == 20
    &&& c.cores.enabled_cores@.len() == 1 && c.cores.enabled_cores@[0]@ == "cpu-btc"@
    &&& c.cores.default_core@ == "cpu-btc"@
    &&& c.cores.cpu_btc matches Some(b) && is_default_cpu_btc(b)
    &&& c.cores.gpu_btc matches Some(g) && !g.enabled && g.device_count == 1
        && g.max_hashrate_bits == 0x426d_1a94_a200_0000 && g.work_size == 32768 && g.work_timeout_ms == 2000
    &&& c.cores.maijie_l7 matches Some(m) && !m.enabled && m.chain_count == 3 && m.spi_speed == 6_000_000
        && m.uart_baud == 115200 && m.auto_detect && m.power_limit_bits == 0x40a7_7000_0000_0000
        && m.cooling_mode@ == "auto"@
    &&& c.devices.auto_detect && c.devices.scan_interval == 10
    &&& c.devices.chains@.len() == 2 && is_default_chain(c.devices.chains@[0], 0)
        && is_default_chain(c.devices.chains@[1], 1)
    &&& c.pools.strategy == PoolStrategy::Failover && c.pools.failover_timeout == 30 && c.pools.retry_interval == 30
    &&& c.pools.pools@.len() == 1
    &&& c.pools.pools@[0].name matches Some(n) && n@ == "example-pool"@
    &&& c.pools.pools@[0].url@ == "stratum+tcp://pool.example.com:4444"@
    &&& c.pools.pools@[0].username@ == "username"@ && c.pools.pools@[0].password@ == "password"@
    &&& c.pools.pools@[0].priority == 1 && c.pools.pools@[0].quota is None && c.pools.pools@[0].enabled
    &&& c.pools.pools@[0].proxy is None
    &&& c.api.enabled && c.api.bind_address@ == "127.0.0.1"@ && c.api.port == 8080
    &&& c.api.allow_origins@.len() == 1 && c.api.allow_origins@[0]@ == "*"@ && c.api.auth_token is None
    &&& c.monitoring.enabled && c.monitoring.metrics_interval == 30 && c.monitoring.web_port == Some(8888u16)
    &&& c.monitoring.alert_thresholds == (AlertThresholds {
        temperature_warning_bits: 0x42a0_0000,
        temperature_critical_bits: 0x42b4_0000,
        hashrate_drop_percent_bits: 0x41a0_0000,
        error_rate_percent_bits: 0x40a0_0000,
        max_temperature_bits: 0x42aa_0000,
        max_cpu_usage_bits: 0x42a0_0000,
        max_memory_usage_bits: 0x42b4_0000,
        max_device_temperature_bits: 0x42aa_0000,
        max_error_rate_bits: 0x40a0_0000,
        min_hashrate_bits: 0x4049_0000_0000_0000,
    })
    &&& crate::mining::hashmeter::is_default_hashmeter(c.hashmeter)
    &&& c.performance is None && c.limits is None && c.logging is None
}

fn default_chain(id: u8) -> (c: ChainConfig)
    ensures
        is_default_chain(c, id),
{
    ChainConfig { id, enabled: true, frequency: 500, voltage: 850, auto_tune: true, chip_count: 76 }
}

impl Config {
    /// The built-in configuration: one CPU core of four devices, two chains,
    /// one example pool, the API on 127.0.0.1:8080 and monitoring on.
    pub fn new() -> (c: Config)
        ensures
            is_default_config(c),
    {
        let mut enabled_cores = Vec::new();
        enabled_cores.push(String::from_str("cpu-btc"));
        let mut chains = Vec::new();
        chains.push(default_chain(0));
        chains.push(default_chain(1));
        let mut pools = Vec::new();
        pools.push(PoolInfo {
            name: Some(String::from_str("example-pool")),
            url: String::from_str("stratum+tcp://pool.example.com:4444"),
            username: String::from_str("username"),
            password: String::from_str("password"),
            priority: 1,
            quota: None,
            enabled: true,
            proxy: None,
        });
        let mut allow_origins = Vec::new();
        allow_origins.push(String::from_str("*"));
        Config {
            general: GeneralConfig {
                log_level: String::from_str("info"),
                log_file: None,
                pid_file: Some(String::from_str("/tmp/cgminer-rs.pid")),
                work_restart_timeout: 60,
                scan_time: 30,
                result_collection_interval_ms: 20,
            },
            cores: CoresConfig {
                enabled_cores,
                default_core: String::from_str("cpu-btc"),
                cpu_btc: Some(BtcSoftwareCoreConfig {
                    enabled: true,
                    device_count: 4,
                    min_hashrate_bits: 0x41cd_cd65_0000_0000,
                    max_hashrate_bits: 0x41f2_a05f_2000_0000,
                    error_rate_bits: 0x3f84_7ae1_47ae_147b,
                    batch_size: 1000,
                    work_timeout_ms: 5000,
                    cpu_affinity: Some(CpuAffinityConfig {
                        enabled: true,
                        strategy: String::from_str("round_robin"),
                        manual_mapping: None,
                        avoid_hyperthreading: Some(false),
                        prefer_performance_cores: Some(true),
                    }),
                }),
                gpu_btc: Some(GpuBtcCoreConfig {
                    enabled: false,
                    device_count: 1,
                    max_hashrate_bits: 0x426d_1a94_a200_0000,
                    work_size: 32768,
                    work_timeout_ms: 2000,
                }),
                maijie_l7: Some(MaijieL7CoreConfig {
                    enabled: false,
                    chain_count: 3,
                    spi_speed: 6_000_000,
                    uart_baud: 115200,
                    auto_detect: true,
                    power_limit_bits: 0x40a7_7000_0000_0000,
                    cooling_mode: String::from_str("auto"),
                }),
            },
            devices: DeviceConfig { auto_detect: true, scan_interval: 10, chains },
            pools: PoolConfig { strategy: PoolStrategy::Failover, failover_timeout: 30, retry_interval: 30, pools },
            api: ApiConfig {
                enabled: true,
                bind_address: String::from_str("127.0.0.1"),
                port: 8080,
                allow_origins,
                auth_token: None,
            },
            monitoring: MonitoringConfig {
                enabled: true,
                metrics_interval: 30,
                web_port: Some(8888),
                alert_thresholds: AlertThresholds {
                    temperature_warning_bits: 0x42a0_0000,
                    temperature_critical_bits: 0x42b4_0000,
                    hashrate_drop_percent_bits: 0x41a0_0000,
                    error_rate_percent_bits: 0x40a0_0000,
                    max_temperature_bits: 0x42aa_0000,
                    max_cpu_usage_bits: 0x42a0_0000,
                    max_memory_usage_bits: 0x42b4_0000,
                    max_device_temperature_bits: 0x42aa_0000,
                    max_error_rate_bits: 0x40a0_0000,
                    min_hashrate_bits: 0x4049_0000_0000_0000,
                },
            },
            hashmeter: crate::mining::hashmeter::HashmeterConfig::new(),
            performance: None,
            limits: None,
            logging: None,
        }
    }
}

impl Default for Config {
    fn default() -> (c: Config)
        ensures
            is_default_config(c),
    {
        Config::new()
    }
}


/// The outcome of the floating point rules of the software core, decided by
/// the caller that holds the floating point values.
#[derive(Debug, Clone, Copy, PartialEq, Eq)]
pub struct FloatChecks {
    /// `min_hashrate >= max_hashrate` for the software core.
    pub hashrate_bounds_inverted: bool,
    /// `error_rate < 0.0 || error_rate > 1.0` for the software core.
    pub error_rate_out_of_range: bool,
}

/// The standard UART baud rates.
pub open spec fn is_standard_baud(b: u32) -> bool {
    b == 9600 || b == 19200 || b == 38400 || b == 57600 || b == 115200 || b == 230400 || b == 460800 || b == 921600
}

/// The rule a chain breaks, with the field and the message, if any.
pub open spec fn chain_failure(c: ChainConfig) -> Option<(Seq<char>, Seq<char>)> {
    if c.frequency < 100 || c.frequency >= 1000 {
        Some(("devices.chains.frequency"@, "Chain "@ + decimal(c.id as nat) + " frequency "@
            + decimal(c.frequency as nat) + " is out of range (100-1000)"@))
    } else if c.voltage < 600 || c.voltage > 1000 {
        Some(("devices.chains.voltage"@, "Chain "@ + decimal(c.id as nat) + " voltage "@
            + decimal(c.voltage as nat) + " is out of range (600-1000)"@))
    } else {
        None
    }
}

/// The first rule broken by the chains from position `i` on.
pub open spec fn chains_failure_from(chains: Seq<ChainConfig>, i: int) -> Option<(Seq<char>, Seq<char>)>
    decreases chains.len() - i,
{
    if i < 0 || i >= chains.len() {
        None
    } else if chain_failure(chains[i]) is Some {
        chain_failure(chains[i])
    } else {
        chains_failure_from(chains, i + 1)
    }
}

/// The first rule of the software core that `b` breaks.
pub open spec fn cpu_btc_failure(b: BtcSoftwareCoreConfig, checks: FloatChecks) -> Option<(Seq<char>, Seq<char>)> {
    if !b.enabled {
        None
    } else if b.device_count == 0 {
        Some(("cores.cpu_btc.device_count"@, "Bitcoin software core device count must be greater than 0"@))
    } else if b.device_count > 100 {
        Some(("cores.cpu_btc.device_count"@, "Bitcoin software core device count cannot exceed 100"@))
    } else if checks.hashrate_bounds_inverted {
        Some(("cores.cpu_btc.min_hashrate"@, "Bitcoin software core min_hashrate must be less than max_hashrate"@))
    } else if checks.error_rate_out_of_range {
        Some(("cores.cpu_btc.error_rate"@, "Bitcoin software core error_rate must be between 0.0 and 1.0"@))
    } else {
        None
    }
}

/// The first rule of the Maijie L7 core that `m` breaks.
pub open spec fn maijie_failure(m: MaijieL7CoreConfig) -> Option<(Seq<char>, Seq<char>)> {
    if !m.enabled {
        None
    } else if m.chain_count == 0 {
        Some(("cores.maijie_l7.chain_count"@, "Maijie L7 core chain count must be greater than 0"@))
    } else if m.chain_count > 16 {
        Some(("cores.maijie_l7.chain_count"@, "Maijie L7 core chain count cannot exceed 16"@))
    } else if m.spi_speed == 0 || m.spi_speed > 50_000_000 {
        Some(("cores.maijie_l7.spi_speed"@, "Maijie L7 core SPI speed must be between 1 and 50,000,000 Hz"@))
    } else if !is_standard_baud(m.uart_baud) {
        Some(("cores.maijie_l7.uart_baud"@, "Maijie L7 core UART baud rate must be a standard value"@))
    } else {
        None
    }
}

/// The first rule that configuration `c` breaks, as a field and a message:
/// the software core, the Maijie L7 core, at least one pool, at least one
/// chain, each chain's frequency (below 1000 MHz) and voltage, a device scan
/// interval above zero, and an unprivileged API port.
pub open spec fn validation_failure(c: Config, checks: FloatChecks) -> Option<(Seq<char>, Seq<char>)> {
    let cpu = match c.cores.cpu_btc {
        Some(b) => cpu_btc_failure(b, checks),
        None => None,
    };
    let l7 = match c.cores.maijie_l7 {
        Some(m) => maijie_failure(m),
        None => None,
    };
    if cpu is Some {
        cpu
    } else if l7 is Some {
        l7
    } else if c.pools.pools@.len() == 0 {
        Some(("pools.pools"@, "At least one pool must be configured"@))
    } else if c.devices.chains@.len() == 0 {
        Some(("devices.chains"@, "At least one chain must be configured"@))
    } else if chains_failure_from(c.devices.chains@, 0) is Some {
        chains_failure_from(c.devices.chains@, 0)
    } else if c.devices.scan_interval == 0 {
        Some(("devices.scan_interval"@, "Device scan interval must be greater than 0"@))
    } else if c.api.port < 1024 {
        Some(("api.port"@, "API port "@ + decimal(c.api.port as nat) + " is out of range (1024-65535)"@))
    } else {
        None
    }
}

/// The built-in configuration breaks no rule: with its software core's
/// hash rate bounds in order and its error rate between 0 and 1, as they
/// are, it validates.
pub proof fn law_default_config_valid(c: Config)
    requires
        is_default_config(c),
    ensures
        validation_failure(c, FloatChecks { hashrate_bounds_inverted: false, error_rate_out_of_range: false }) is None,
{
    let chains = c.devices.chains@;
    assert(chain_failure(chains[1]) is None);
    assert(chains_failure_from(chains, 2) is None);
    assert(chains_failure_from(chains, 1) is None);
    assert(chain_failure(chains[0]) is None);
    assert(chains_failure_from(chains, 0) is None);
}

/// `r` reports the outcome `failure`: success when no rule is broken, else
/// a validation error with that field and message.
pub open spec fn reports(r: Result<(), crate::error::ConfigError>, failure: Option<(Seq<char>, Seq<char>)>) -> bool {
    match failure {
        None => r is Ok,
        Some((field, reason)) => r matches Err(crate::error::ConfigError::ValidationError { field: f, reason: m })
            && f@ == field && m@ == reason,
    }
}

fn validation_error(field: &str, reason: String) -> (r: Result<(), crate::error::ConfigError>)
    ensures
        r matches Err(crate::error::ConfigError::ValidationError { field: f, reason: m }) && f@ == field@ && m@ == reason@,
{
    Err(crate::error::ConfigError::ValidationError { field: String::from_str(field), reason })
}

fn chain_check(c: &ChainConfig) -> (r: Result<(), crate::error::ConfigError>)
    ensures
        reports(r, chain_failure(*c)),
{
    if c.frequency < 100 || c.frequency >= 1000 {
        let mut m = String::from_str("Chain ");
        push_decimal(&mut m, c.id as u64);
        m.append(" frequency ");
        push_decimal(&mut m, c.frequency as u64);
        m.append(" is out of range (100-1000)");
        return validation_error("devices.chains.frequency", m);
    }
    if c.voltage < 600 || c.voltage > 1000 {
        let mut m = String::from_str("Chain ");
        push_decimal(&mut m, c.id as u64);
        m.append(" voltage ");
        push_decimal(&mut m, c.voltage as u64);
        m.append(" is out of range (600-1000)");
        return validation_error("devices.chains.voltage", m);
    }
    Ok(())
}

impl Config {
    /// Checks the configuration against its rules, first broken rule first.
    /// The two floating point rules of the software core come decided in
    /// `checks`.
    pub fn validate(&self, checks: FloatChecks) -> (r: Result<(), crate::error::ConfigError>)
        ensures
            reports(r, validation_failure(*self, checks)),
    {
        if let Some(b) = &self.cores.cpu_btc {
            if b.enabled {
                if b.device_count == 0 {
                    return validation_error("cores.cpu_btc.device_count",
                        String::from_str("Bitcoin software core device count must be greater than 0"));
                }
                if b.device_count > 100 {
                    return validation_error("cores.cpu_btc.device_count",
                        String::from_str("Bitcoin software core device count cannot exceed 100"));
                }
                if checks.hashrate_bounds_inverted {
                    return validation_error("cores.cpu_btc.min_hashrate",
                        String::from_str("Bitcoin software core min_hashrate must be less than max_hashrate"));
                }
                if checks.error_rate_out_of_range {
                    return validation_error("cores.cpu_btc.error_rate",
                        String::from_str("Bitcoin software core error_rate must be between 0.0 and 1.0"));
                }
            }
        }
        if let Some(m) = &self.cores.maijie_l7 {
            if m.enabled {
                if m.chain_count == 0 {
                    return validation_error("cores.maijie_l7.chain_count",
                        String::from_str("Maijie L7 core chain count must be greater than 0"));
                }
                if m.chain_count > 16 {
                    return validation_error("cores.maijie_l7.chain_count",
                        String::from_str("Maijie L7 core chain count cannot exceed 16"));
                }
                if m.spi_speed == 0 || m.spi_speed > 50_000_000 {
                    return validation_error("cores.maijie_l7.spi_speed",
                        String::from_str("Maijie L7 core SPI speed must be between 1 and 50,000,000 Hz"));
                }
                let valid_bauds: [u32; 8] = [9600, 19200, 38400, 57600, 115200, 230400, 460800, 921600];
                let mut found = false;
                let mut i: usize = 0;
                while i < 8
                    invariant
                        i <= 8,
                        valid_bauds@ == seq![9600u32, 19200, 38400, 57600, 115200, 230400, 460800, 921600],
                        found == exists|j: int| 0 <= j < i && valid_bauds@[j] == m.uart_baud,
                    decreases 8 - i,
                {
                    if valid_bauds[i] == m.uart_baud {
                        found = true;
                    }
                    i = i + 1;
                }
                if !found {
                    return validation_error("cores.maijie_l7.uart_baud",
                        String::from_str("Maijie L7 core UART baud rate must be a standard value"));
                }
                proof {
                    let j = choose|j: int| 0 <= j < 8 && valid_bauds@[j] == m.uart_baud;
                    assert(is_standard_baud(m.uart_baud));
                }
            }
        }
        if self.pools.pools.len() == 0 {
            return validation_error("pools.pools", String::from_str("At least one pool must be configured"));
        }
        if self.devices.chains.len() == 0 {
            return validation_error("devices.chains", String::from_str("At least one chain must be configured"));
        }
        let chains = &self.devices.chains;
        let mut i: usize = 0;
        while i < chains.len()
            invariant
                i <= chains@.len(),
                chains@ == self.devices.chains@,
                chains_failure_from(chains@, 0) == chains_failure_from(chains@, i as int),
                (match self.cores.cpu_btc { Some(b) => cpu_btc_failure(b, checks), None => None }) is None,
                (match self.cores.maijie_l7 { Some(m) => maijie_failure(m), None => None }) is None,
                self.pools.pools@.len() > 0,
                chains@.len() > 0,
            decreases chains@.len() - i,
        {
            let r = chain_check(&chains[i]);
            if r.is_err() {
                return r;
            }
            i = i + 1;
        }
        if self.devices.scan_interval == 0 {
            return validation_error("devices.scan_interval",
                String::from_str("Device scan interval must be greater than 0"));
        }
        if self.api.port < 1024 {
            let mut m = String::from_str("API port ");
            push_decimal(&mut m, self.api.port as u64);
            m.append(" is out of range (1024-65535)");
            return validation_error("api.port", m);
        }
        Ok(())
    }

    /// Whether the configuration breaks none of its rules.
    pub fn is_valid(&self, checks: FloatChecks) -> (b: bool)
        ensures
            b == (validation_failure(*self, checks) is None),
    {
        self.validate(checks).is_ok()
    }
}


/// The parts of a URL that proxy settings read, as the url crate parses them.
#[derive(Debug, Clone)]
pub struct UrlParts {
    pub scheme: String,
    pub host: Option<String>,
    pub port: Option<u16>,
    pub username: String,
    pub password: Option<String>,
    /// The decoded query pairs, in order.
    pub query: Vec<(String, String)>,
}

/// What `url::Url::parse` makes of `input`: `None` when it rejects it,
/// otherwise the scheme, host, explicit port, user name, password and query
/// pairs that the parsed URL reports.
pub uninterp spec fn url_parts_of(input: Seq<char>) -> Option<UrlParts>;

/// Parses `input` with `url::Url::parse` and reads the parts that proxy
/// settings use through the URL's accessors.
///
/// The contract names the outcome as a function of the input text; the
/// WHATWG parsing rules themselves are not stated.
#[verifier::external_body]
fn parse_url(input: &str) -> (r: Option<UrlParts>)
    ensures
        r == url_parts_of(input@),
{
    url::Url::parse(input).ok().map(|u| UrlParts {
        scheme: u.scheme().to_string(),
        host: u.host_str().map(|h| h.to_string()),
        port: u.port(),
        username: u.username().to_string(),
        password: u.password().map(|p| p.to_string()),
        query: u.query_pairs().map(|(k, v)| (k.into_owned(), v.into_owned())).collect(),
    })
}

/// The views of query pairs.
pub open spec fn pair_views(pairs: Seq<(String, String)>) -> Seq<(Seq<char>, Seq<char>)> {
    pairs.map_values(|p: (String, String)| (p.0@, p.1@))
}

/// The value of the last of the first `n` pairs whose key is `key`.
pub open spec fn last_value(pairs: Seq<(Seq<char>, Seq<char>)>, key: Seq<char>, n: int) -> Option<Seq<char>>
    decreases n,
{
    if n <= 0 {
        None
    } else if pairs[n - 1].0 == key {
        Some(pairs[n - 1].1)
    } else {
        last_value(pairs, key, n - 1)
    }
}

/// A `skip_verify` value that is neither "true" nor "false".
pub open spec fn bad_skip_verify(p: (Seq<char>, Seq<char>)) -> bool {
    p.0 == "skip_verify"@ && p.1 != "true"@ && p.1 != "false"@
}

/// The value of the first of the first `n` pairs with a malformed `skip_verify`.
pub open spec fn first_bad_skip_verify(pairs: Seq<(Seq<char>, Seq<char>)>, n: int) -> Option<Seq<char>>
    decreases n,
{
    if n <= 0 {
        None
    } else if first_bad_skip_verify(pairs, n - 1) is Some {
        first_bad_skip_verify(pairs, n - 1)
    } else if bad_skip_verify(pairs[n - 1]) {
        Some(pairs[n - 1].1)
    } else {
        None
    }
}

/// `o` holds the text `v`.
pub open spec fn opt_is(o: Option<String>, v: Option<Seq<char>>) -> bool {
    match (o, v) {
        (None, None) => true,
        (Some(s), Some(t)) => s@ == t,
        _ => false,
    }
}

/// Proxy settings `p` as built from the parsed URL `u` and the arguments:
/// the type is the scheme, host and port come from the URL, the command line
/// credentials win over those of the URL, and the TLS settings are the last
/// values given for them in the query.
pub open spec fn proxy_from_parts(p: ProxyConfig, u: UrlParts, args: Args) -> bool {
    let q = pair_views(u.query@);
    let n = q.len() as int;
    &&& p.proxy_type@ == u.scheme@
    &&& u.host matches Some(h) && p.host@ == h@
    &&& u.port == Some(p.port)
    &&& match args.proxy_user {
        Some(a) => p.username matches Some(x) && x@ == a@,
        None => if u.username@.len() == 0 { p.username is None } else { p.username matches Some(x) && x@ == u.username@ },
    }
    &&& match args.proxy_pass {
        Some(a) => p.password matches Some(x) && x@ == a@,
        None => opt_is(p.password, match u.password { Some(w) => Some(w@), None => None }),
    }
    &&& p.skip_verify == match last_value(q, "skip_verify"@, n) {
        Some(v) => Some(v == "true"@),
        None => None,
    }
    &&& opt_is(p.server_name, last_value(q, "server_name"@, n))
    &&& opt_is(p.ca_cert, last_value(q, "ca_cert"@, n))
    &&& opt_is(p.client_cert, last_value(q, "client_cert"@, n))
    &&& opt_is(p.client_key, last_value(q, "client_key"@, n))
}

/// Why proxy URL `url`, parsed as `u`, gives no proxy settings, as a field,
/// the offending value and the message; `None` when it gives them.
pub open spec fn proxy_failure(u: Option<UrlParts>, url: Seq<char>) -> Option<(Seq<char>, Seq<char>, Seq<char>)> {
    match u {
        None => Some(("proxy"@, url, "Invalid proxy URL: "@ + url)),
        Some(parts) => {
            let q = pair_views(parts.query@);
            if parts.scheme@ != "socks5"@ && parts.scheme@ != "socks5+tls"@ {
                Some(("proxy"@, parts.scheme@, "Unsupported proxy scheme: "@ + parts.scheme@
                    + ". Use 'socks5' or 'socks5+tls'"@))
            } else if parts.host is None {
                Some(("proxy"@, url, "Proxy URL must include a host"@))
            } else if parts.port is None {
                Some(("proxy"@, url, "Proxy URL must include a port"@))
            } else if first_bad_skip_verify(q, q.len() as int) is Some {
                let v = first_bad_skip_verify(q, q.len() as int)->0;
                Some(("skip_verify"@, v, "Invalid skip_verify value: "@ + v))
            } else {
                None
            }
        },
    }
}

/// `r` is the error `failure`.
pub open spec fn is_invalid_value(e: crate::error::ConfigError, failure: (Seq<char>, Seq<char>, Seq<char>)) -> bool {
    e matches crate::error::ConfigError::InvalidValue { field, value, reason }
        && field@ == failure.0 && value@ == failure.1 && reason@ == failure.2
}

fn invalid_value(field: &str, value: &str, reason: String) -> (e: crate::error::ConfigError)
    ensures
        is_invalid_value(e, (field@, value@, reason@)),
{
    crate::error::ConfigError::InvalidValue { field: String::from_str(field), value: String::from_str(value), reason }
}

/// Builds proxy settings from the parsed proxy URL `parts` of `proxy_url`
/// and the command line arguments.
pub fn proxy_config_from_parts(parts: &Option<UrlParts>, proxy_url: &str, args: &Args) -> (r: Result<ProxyConfig, crate::error::ConfigError>)
    ensures
        proxy_failure(*parts, proxy_url@) is None ==> (r matches Ok(p) && proxy_from_parts(p, parts->0, *args)),
        proxy_failure(*parts, proxy_url@) matches Some(f) ==> (r matches Err(e) && is_invalid_value(e, f)),
{
    let u = match parts {
        None => {
            let mut m = String::from_str("Invalid proxy URL: ");
            m.append(proxy_url);
            return Err(invalid_value("proxy", proxy_url, m));
        },
        Some(u) => u,
    };
    let scheme = u.scheme.as_str();
    if !crate::text::str_equal(scheme, "socks5") && !crate::text::str_equal(scheme, "socks5+tls") {
        let mut m = String::from_str("Unsupported proxy scheme: ");
        m.append(scheme);
        m.append(". Use 'socks5' or 'socks5+tls'");
        return Err(invalid_value("proxy", scheme, m));
    }
    let host = match &u.host {
        Some(h) => h.clone(),
        None => {
            return Err(invalid_value("proxy", proxy_url, String::from_str("Proxy URL must include a host")));
        },
    };
    let port = match u.port {
        Some(p) => p,
        None => {
            return Err(invalid_value("proxy", proxy_url, String::from_str("Proxy URL must include a port")));
        },
    };
    let username = match &args.proxy_user {
        Some(a) => Some(a.clone()),
        None => if u.username.as_str().unicode_len() == 0 { None } else { Some(u.username.clone()) },
    };
    let password = match &args.proxy_pass {
        Some(a) => Some(a.clone()),
        None => clone_text(&u.password),
    };
    let ghost q = pair_views(u.query@);
    let mut skip_verify: Option<bool> = None;
    let mut server_name: Option<String> = None;
    let mut ca_cert: Option<String> = None;
    let mut client_cert: Option<String> = None;
    let mut client_key: Option<String> = None;
    let mut i: usize = 0;
    while i < u.query.len()
        invariant
            i <= u.query@.len(),
            q == pair_views(u.query@),
            *parts == Some(*u),
            u.scheme@ == "socks5"@ || u.scheme@ == "socks5+tls"@,
            u.host is Some,
            u.port is Some,
            first_bad_skip_verify(q, i as int) is None,
            skip_verify == match last_value(q, "skip_verify"@, i as int) { Some(v) => Some(v == "true"@), None => None },
            opt_is(server_name, last_value(q, "server_name"@, i as int)),
            opt_is(ca_cert, last_value(q, "ca_cert"@, i as int)),
            opt_is(client_cert, last_value(q, "client_cert"@, i as int)),
            opt_is(client_key, last_value(q, "client_key"@, i as int)),
        decreases u.query@.len() - i,
    {
        let key = u.query[i].0.as_str();
        let value = u.query[i].1.as_str();
        proof {
            assert(q[i as int] == (key@, value@));
            reveal_strlit("skip_verify");
            reveal_strlit("server_name");
            reveal_strlit("ca_cert");
            reveal_strlit("client_cert");
            reveal_strlit("client_key");
            assert("skip_verify"@[1] != "server_name"@[1]);
            assert("skip_verify"@[1] != "client_cert"@[1]);
            assert("server_name"@[1] != "client_cert"@[1]);
            assert("skip_verify"@ != "server_name"@);
            assert("skip_verify"@ != "client_cert"@);
            assert("server_name"@ != "client_cert"@);
            assert("ca_cert"@.len() != "client_key"@.len());
        }
        if crate::text::str_equal(key, "skip_verify") {
            if crate::text::str_equal(value, "true") {
                skip_verify = Some(true);
            } else if crate::text::str_equal(value, "false") {
                skip_verify = Some(false);
            } else {
                let mut m = String::from_str("Invalid skip_verify value: ");
                m.append(value);
                proof {
                    assert(first_bad_skip_verify(q, i + 1) == Some(value@));
                    lemma_first_bad_stays(q, i + 1, q.len() as int);
                }
                return Err(invalid_value("skip_verify", value, m));
            }
        } else if crate::text::str_equal(key, "server_name") {
            server_name = Some(String::from_str(value));
        } else if crate::text::str_equal(key, "ca_cert") {
            ca_cert = Some(String::from_str(value));
        } else if crate::text::str_equal(key, "client_cert") {
            client_cert = Some(String::from_str(value));
        } else if crate::text::str_equal(key, "client_key") {
            client_key = Some(String::from_str(value));
        }
        i = i + 1;
    }
    proof {
        assert(q.len() == u.query@.len());
    }
    Ok(ProxyConfig {
        proxy_type: u.scheme.clone(),
        host,
        port,
        username,
        password,
        skip_verify,
        server_name,
        ca_cert,
        client_cert,
        client_key,
    })
}

/// The value of an optional text, or `default`.
pub open spec fn text_or(o: Option<String>, default: Seq<char>) -> Seq<char> {
    match o {
        Some(s) => s@,
        None => default,
    }
}

/// The pool that a command line pool URL creates when none is configured.
pub open spec fn is_cli_pool(p: PoolInfo, url: Seq<char>, args: Args) -> bool {
    &&& p.name matches Some(n) && n@ == "cli-pool"@
    &&& p.url@ == url
    &&& p.username@ == text_or(args.user, "worker"@)
    &&& p.password@ == text_or(args.pass, "x"@)
    &&& p.priority == 1 && p.quota is None && p.enabled && p.proxy is None
}

/// Pool `new` is `old` with the command line URL, user and password applied.
pub open spec fn with_credentials(old: PoolInfo, new: PoolInfo, args: Args) -> bool {
    &&& new.url@ == text_or(args.pool, old.url@)
    &&& new.username@ == text_or(args.user, old.username@)
    &&& new.password@ == text_or(args.pass, old.password@)
    &&& new == (PoolInfo { url: new.url, username: new.username, password: new.password, ..old })
}

/// The pools after the command line URL and credentials: a new pool when
/// none is configured and a URL is given, otherwise the first pool updated.
pub open spec fn pools_with_credentials(old: Seq<PoolInfo>, new: Seq<PoolInfo>, args: Args) -> bool {
    if old.len() == 0 {
        match args.pool {
            Some(url) => new.len() == 1 && is_cli_pool(new[0], url@, args),
            None => new.len() == 0,
        }
    } else {
        &&& new.len() == old.len()
        &&& with_credentials(old[0], new[0], args)
        &&& forall|i: int| 1 <= i < old.len() ==> new[i] == old[i]
    }
}

/// The pools after giving every enabled pool the proxy built from URL `url`.
pub open spec fn pools_with_proxy(old: Seq<PoolInfo>, new: Seq<PoolInfo>, url: Seq<char>, args: Args) -> bool {
    &&& new.len() == old.len()
    &&& forall|i: int| 0 <= i < old.len() ==> new[i] == (PoolInfo { proxy: new[i].proxy, ..old[i] })
    &&& forall|i: int| 0 <= i < old.len() && !old[i].enabled ==> new[i].proxy == old[i].proxy
    &&& forall|i: int| 0 <= i < old.len() && old[i].enabled ==> (new[i].proxy matches Some(p)
        && proxy_from_parts(p, url_parts_of(url)->0, args))
}

/// A malformed `skip_verify` found among the first `n` pairs is still the
/// first one among the first `m >= n`.
proof fn lemma_first_bad_stays(q: Seq<(Seq<char>, Seq<char>)>, n: int, m: int)
    requires
        n <= m,
        first_bad_skip_verify(q, n) is Some,
    ensures
        first_bad_skip_verify(q, m) == first_bad_skip_verify(q, n),
    decreases m - n,
{
    if m > n {
        lemma_first_bad_stays(q, n, m - 1);
    }
}


impl Config {
    /// Builds proxy settings from `proxy_url` and the command line credentials.
    pub fn parse_proxy_url(&self, proxy_url: &str, args: &Args) -> (r: Result<ProxyConfig, crate::error::ConfigError>)
        ensures
            proxy_failure(url_parts_of(proxy_url@), proxy_url@) is None ==> (r matches Ok(p)
                && proxy_from_parts(p, url_parts_of(proxy_url@)->0, *args)),
            proxy_failure(url_parts_of(proxy_url@), proxy_url@) matches Some(f) ==> (r matches Err(e)
                && is_invalid_value(e, f)),
    {
        let parts = parse_url(proxy_url);
        proxy_config_from_parts(&parts, proxy_url, args)
    }

    /// Applies the command line pool URL, user, password and proxy to the
    /// pools. Fails when the proxy URL gives no proxy settings, with the URL
    /// and credentials already applied.
    pub fn apply_pool_cli_args(&mut self, args: &Args) -> (r: Result<(), crate::error::ConfigError>)
        ensures
            *final(self) == (Config { pools: PoolConfig { pools: final(self).pools.pools, ..old(self).pools }, ..*old(self) }),
            args.proxy is None ==> r is Ok && pools_with_credentials(old(self).pools.pools@, final(self).pools.pools@, *args),
            args.proxy matches Some(url) ==> (match proxy_failure(url_parts_of(url@), url@) {
                Some(f) => r matches Err(e) && is_invalid_value(e, f)
                    && pools_with_credentials(old(self).pools.pools@, final(self).pools.pools@, *args),
                None => r is Ok && exists|mid: Seq<PoolInfo>| pools_with_credentials(old(self).pools.pools@, mid, *args)
                    && pools_with_proxy(mid, final(self).pools.pools@, url@, *args),
            }),
    {
        if let Some(pool_url) = &args.pool {
            if self.pools.pools.len() == 0 {
                let username = match &args.user {
                    Some(u) => u.clone(),
                    None => String::from_str("worker"),
                };
                let password = match &args.pass {
                    Some(p) => p.clone(),
                    None => String::from_str("x"),
                };
                self.pools.pools.push(PoolInfo {
                    name: Some(String::from_str("cli-pool")),
                    url: pool_url.clone(),
                    username,
                    password,
                    priority: 1,
                    quota: None,
                    enabled: true,
                    proxy: None,
                });
            } else {
                self.pools.pools[0].url = pool_url.clone();
                if let Some(user) = &args.user {
                    self.pools.pools[0].username = user.clone();
                }
                if let Some(pass) = &args.pass {
                    self.pools.pools[0].password = pass.clone();
                }
            }
        } else {
            if self.pools.pools.len() > 0 {
                if let Some(user) = &args.user {
                    self.pools.pools[0].username = user.clone();
                }
                if let Some(pass) = &args.pass {
                    self.pools.pools[0].password = pass.clone();
                }
            }
        }
        let ghost mid = self.pools.pools@;
        assert(pools_with_credentials(old(self).pools.pools@, mid, *args));
        if let Some(proxy_url) = &args.proxy {
            let proxy_config = match self.parse_proxy_url(proxy_url.as_str(), args) {
                Ok(p) => p,
                Err(e) => {
                    return Err(e);
                },
            };
            let mut i: usize = 0;
            while i < self.pools.pools.len()
                invariant
                    i <= self.pools.pools@.len(),
                    self.pools.pools@.len() == mid.len(),
                    *self == (Config { pools: PoolConfig { pools: self.pools.pools, ..old(self).pools }, ..*old(self) }),
                    proxy_from_parts(proxy_config, url_parts_of(proxy_url@)->0, *args),
                    forall|j: int| 0 <= j < mid.len() ==> self.pools.pools@[j] == (PoolInfo { proxy: self.pools.pools@[j].proxy, ..mid[j] }),
                    forall|j: int| 0 <= j < mid.len() && (j >= i || !mid[j].enabled) ==> self.pools.pools@[j].proxy == mid[j].proxy,
                    forall|j: int| 0 <= j < i && mid[j].enabled ==> (self.pools.pools@[j].proxy matches Some(p)
                        && proxy_from_parts(p, url_parts_of(proxy_url@)->0, *args)),
                decreases self.pools.pools@.len() - i,
            {
                if self.pools.pools[i].enabled {
                    self.pools.pools[i].proxy = Some(proxy_config.clone());
                }
                i = i + 1;
            }
        }
        Ok(())
    }

    /// Applies the command line overrides: the API port when it is not the
    /// default 4028, the API switch, the log level when it is not `info`, and
    /// the pool settings when any of proxy, pool, user or password is given.
    pub fn apply_cli_args(&mut self, args: &Args) -> (r: Result<(), crate::error::ConfigError>)
        ensures
            final(self).api == (ApiConfig {
                port: if args.api_port != 4028 { args.api_port } else { old(self).api.port },
                enabled: old(self).api.enabled && !args.no_api,
                ..old(self).api
            }),
            final(self).general == (GeneralConfig { log_level: final(self).general.log_level, ..old(self).general }),
            final(self).general.log_level@ == (if args.log_level@ != "info"@ { args.log_level@ } else { old(self).general.log_level@ }),
            *final(self) == (Config { api: final(self).api, general: final(self).general, pools: final(self).pools, ..*old(self) }),
            final(self).pools == (PoolConfig { pools: final(self).pools.pools, ..old(self).pools }),
            args.proxy is None && args.pool is None && args.user is None && args.pass is None ==> r is Ok
                && final(self).pools == old(self).pools,
            args.proxy is None && (args.pool is Some || args.user is Some || args.pass is Some) ==> r is Ok
                && pools_with_credentials(old(self).pools.pools@, final(self).pools.pools@, *args),
            args.proxy matches Some(url) ==> (match proxy_failure(url_parts_of(url@), url@) {
                Some(f) => r matches Err(e) && is_invalid_value(e, f)
                    && pools_with_credentials(old(self).pools.pools@, final(self).pools.pools@, *args),
                None => r is Ok && exists|mid: Seq<PoolInfo>| pools_with_credentials(old(self).pools.pools@, mid, *args)
                    && pools_with_proxy(mid, final(self).pools.pools@, url@, *args),
            }),
            args.api_port == 4028 && !args.no_api && args.log_level@ == "info"@ && args.proxy is None
                && args.pool is None && args.user is None && args.pass is None ==> r is Ok && *final(self) == *old(self),
    {
        if args.api_port != 4028 {
            self.api.port = args.api_port;
        }
        if args.no_api {
            self.api.enabled = false;
        }
        if !crate::text::str_equal(args.log_level.as_str(), "info") {
            self.general.log_level = args.log_level.clone();
        }
        if args.proxy.is_some() || args.pool.is_some() || args.user.is_some() || args.pass.is_some() {
            self.apply_pool_cli_args(args)
        } else {
            Ok(())
        }
    }
}


/// An enabled Maijie L7 core drives at most 16 chains: whatever the rest of
/// the configuration, one with more chains is refused, and where the software
/// core breaks no rule the refusal names the chain count and its limit of 16.
pub proof fn law_maijie_chain_count_at_most_16(c: Config, checks: FloatChecks, m: MaijieL7CoreConfig)
    requires
        c.cores.maijie_l7 == Some(m),
        m.enabled,
    ensures
        m.chain_count > 16 ==> validation_failure(c, checks) is Some,
        m.chain_count > 16 && (match c.cores.cpu_btc {
            Some(b) => cpu_btc_failure(b, checks) is None,
            None => true,
        }) ==> validation_failure(c, checks) == Some(
            ("cores.maijie_l7.chain_count"@, "Maijie L7 core chain count cannot exceed 16"@),
        ),
{
}


/// A chain that breaks a rule at position `i` makes the chains from any
/// earlier position fail.
proof fn lemma_failing_chain_found(chains: Seq<ChainConfig>, k: int, i: int)
    requires
        0 <= k <= i < chains.len(),
        chain_failure(chains[i]) is Some,
    ensures
        chains_failure_from(chains, k) is Some,
    decreases i - k,
{
    if k < i && chain_failure(chains[k]) is None {
        lemma_failing_chain_found(chains, k + 1, i);
    }
}

/// A configuration is refused whenever one of its basic rules is broken: an
/// enabled software core with no device or more than 100, an enabled Maijie
/// L7 core without chains, an SPI speed of 0 or above 50 MHz or a baud rate
/// other than a standard one, no pool, no chain, a chain below 100 MHz, at
/// 1000 MHz or more, or outside 600 to 1000 mV, a device scan interval of 0,
/// or an API port below 1024.
pub proof fn law_broken_rules_refused(c: Config, checks: FloatChecks)
    ensures
        (c.cores.cpu_btc matches Some(b) && b.enabled && (b.device_count == 0 || b.device_count > 100))
            ==> validation_failure(c, checks) is Some,
        (c.cores.maijie_l7 matches Some(m) && m.enabled && (m.chain_count == 0 || m.spi_speed == 0
            || m.spi_speed > 50_000_000 || !(m.uart_baud == 9600 || m.uart_baud == 19200 || m.uart_baud == 38400
            || m.uart_baud == 57600 || m.uart_baud == 115200 || m.uart_baud == 230400 || m.uart_baud == 460800
            || m.uart_baud == 921600))) ==> validation_failure(c, checks) is Some,
        c.pools.pools@.len() == 0 ==> validation_failure(c, checks) is Some,
        c.devices.chains@.len() == 0 ==> validation_failure(c, checks) is Some,
        (exists|i: int| 0 <= i < c.devices.chains@.len() && ({
            let ch = #[trigger] c.devices.chains@[i];
            ch.frequency < 100 || ch.frequency >= 1000 || ch.voltage < 600 || ch.voltage > 1000
        })) ==> validation_failure(c, checks) is Some,
        c.devices.scan_interval == 0 ==> validation_failure(c, checks) is Some,
        c.api.port < 1024 ==> validation_failure(c, checks) is Some,
{
    if exists|i: int| 0 <= i < c.devices.chains@.len() && ({
        let ch = #[trigger] c.devices.chains@[i];
        ch.frequency < 100 || ch.frequency >= 1000 || ch.voltage < 600 || ch.voltage > 1000
    }) {
        let i = choose|i: int| 0 <= i < c.devices.chains@.len() && ({
            let ch = #[trigger] c.devices.chains@[i];
            ch.frequency < 100 || ch.frequency >= 1000 || ch.voltage < 600 || ch.voltage > 1000
        });
        lemma_failing_chain_found(c.devices.chains@, 0, i);
    }
}

} // verus!
