//! Device level data: units of work, mining results, device status and
//! configuration.

pub mod virtual_device;
pub mod id_range;
pub mod device_core_mapper;
pub mod factory;
pub mod traits;
pub mod chain;
pub mod architecture;
pub mod maijie_l7;

use vstd::prelude::*;
use crate::logging::formatter::{hex_char, digit_str};

verus! {

/// Milliseconds a unit of work stays valid after it was created.
pub const WORK_LIFETIME_MS: u64 = 120_000;

/// The state of a mining device.
#[derive(Debug, Clone, PartialEq, Eq)]
pub enum DeviceStatus {
    Uninitialized,
    Initializing,
    Idle,
    Mining,
    Error(String),
    Overheated,
    Disabled,
    Restarting,
}

impl DeviceStatus {
    /// A device is healthy while it is idle or mining.
    pub fn is_healthy(&self) -> (b: bool)
        ensures
            b == (*self is Idle || *self is Mining),
    {
        match self {
            DeviceStatus::Idle | DeviceStatus::Mining => true,
            _ => false,
        }
    }
}

/// A unit of work handed to devices.
///
/// Times are milliseconds since the Unix epoch; the share difficulty is kept
/// as the bit pattern of its IEEE-754 double, which this library carries but
/// never interprets.
#[derive(Debug, Clone)]
pub struct Work {
    pub id: u128,
    pub job_id: String,
    pub target: [u8; 32],
    pub header: [u8; 80],
    pub midstate: [[u8; 32]; 8],
    pub difficulty_bits: u64,
    pub created_at: u64,
    pub expires_at: u64,
}

impl Work {
    /// Work created at `now` with identifier `id`; it expires two minutes later.
    pub fn new_at(id: u128, job_id: String, target: [u8; 32], header: [u8; 80], difficulty_bits: u64, now: u64) -> (w: Work)
        requires
            now + WORK_LIFETIME_MS <= u64::MAX,
        ensures
            w.id == id,
            w.job_id == job_id,
            w.target == target,
            w.header == header,
            w.difficulty_bits == difficulty_bits,
            w.created_at == now,
            w.expires_at == now + WORK_LIFETIME_MS,
    {
        Work {
            id,
            job_id,
            target,
            header,
            midstate: [[0u8; 32]; 8],
            difficulty_bits,
            created_at: now,
            expires_at: now + WORK_LIFETIME_MS,
        }
    }

    /// Work created now with a fresh random identifier; it expires two
    /// minutes later (a clock within two minutes of the end of time reads as
    /// that point).
    pub fn new(job_id: String, target: [u8; 32], header: [u8; 80], difficulty_bits: u64) -> (w: Work)
        ensures
            w.job_id == job_id,
            w.target == target,
            w.header == header,
            w.difficulty_bits == difficulty_bits,
            w.expires_at == w.created_at + WORK_LIFETIME_MS,
    {
        let clock = crate::clock::now_millis();
        let now = if clock > u64::MAX - WORK_LIFETIME_MS { u64::MAX - WORK_LIFETIME_MS } else { clock };
        Work::new_at(crate::ids::new_uuid(), job_id, target, header, difficulty_bits, now)
    }

    /// Whether the work has expired at time `now`.
    pub fn is_expired_at(&self, now: u64) -> (b: bool)
        ensures
            b == (now > self.expires_at),
    {
        now > self.expires_at
    }

    /// Milliseconds left before the work expires at time `now`, zero once it has.
    pub fn time_to_expire_at(&self, now: u64) -> (left: u64)
        ensures
            left == (if self.expires_at >= now { self.expires_at - now } else { 0 }),
    {
        if self.expires_at >= now {
            self.expires_at - now
        } else {
            0
        }
    }
}

/// A nonce reported by a device for a unit of work.
#[derive(Debug, Clone)]
pub struct MiningResult {
    pub work_id: u128,
    pub device_id: u32,
    pub nonce: u32,
    pub extra_nonce: Option<u32>,
    pub timestamp: u64,
    pub difficulty_bits: u64,
    pub is_valid: bool,
}

impl MiningResult {
    /// A result found at time `now`, not yet validated.
    pub fn new_at(work_id: u128, device_id: u32, nonce: u32, difficulty_bits: u64, now: u64) -> (r: MiningResult)
        ensures
            r.work_id == work_id,
            r.device_id == device_id,
            r.nonce == nonce,
            r.extra_nonce is None,
            r.timestamp == now,
            r.difficulty_bits == difficulty_bits,
            !r.is_valid,
    {
        MiningResult { work_id, device_id, nonce, extra_nonce: None, timestamp: now, difficulty_bits, is_valid: false }
    }

    /// The same result with an extra nonce.
    pub fn with_extra_nonce(self, extra_nonce: u32) -> (r: MiningResult)
        ensures
            r == (MiningResult { extra_nonce: Some(extra_nonce), ..self }),
    {
        let mut r = self;
        r.extra_nonce = Some(extra_nonce);
        r
    }

    /// The same result, marked valid.
    pub fn mark_valid(self) -> (r: MiningResult)
        ensures
            r == (MiningResult { is_valid: true, ..self }),
    {
        let mut r = self;
        r.is_valid = true;
        r
    }
}

/// The hexadecimal digit values of the last `width` digits of `n`, most
/// significant first.
pub open spec fn hex_nibbles(n: nat, width: nat) -> Seq<nat>
    decreases width,
{
    if width == 0 {
        Seq::empty()
    } else {
        hex_nibbles(n / 16, (width - 1) as nat).push(n % 16)
    }
}

/// The first `k` digits of `digits` in hyphenated identifier layout: a dash
/// before the digits at positions 8, 12, 16 and 20.
pub open spec fn dashed_hex(digits: Seq<nat>, k: nat) -> Seq<char>
    decreases k,
{
    if k == 0 {
        Seq::empty()
    } else {
        let i = (k - 1) as int;
        dashed_hex(digits, (k - 1) as nat)
            + (if i == 8 || i == 12 || i == 16 || i == 20 { seq!['-'] } else { Seq::empty() })
            + seq![hex_char(digits[i])]
    }
}

/// The canonical text of a 128-bit identifier: 32 lower case hexadecimal
/// digits in groups of 8-4-4-4-12.
pub open spec fn id_text(id: u128) -> Seq<char> {
    dashed_hex(hex_nibbles(id as nat, 32), 32)
}

fn push_nibbles(out: &mut Vec<u8>, n: u128, width: usize)
    ensures
        final(out)@.len() == old(out)@.len() + width,
        forall|i: int| 0 <= i < old(out)@.len() ==> final(out)@[i] == old(out)@[i],
        forall|i: int| 0 <= i < width ==> final(out)@[old(out)@.len() + i] as nat == hex_nibbles(n as nat, width as nat)[i],
    decreases width,
{
    if width > 0 {
        push_nibbles(out, n / 16, width - 1);
        out.push((n % 16) as u8);
        proof {
            let h = hex_nibbles(n as nat, width as nat);
            let t = hex_nibbles((n / 16) as nat, (width - 1) as nat);
            lemma_nibble_bound((n / 16) as nat, (width - 1) as nat, 0);
            assert(h == t.push((n % 16) as nat));
            assert forall|i: int| 0 <= i < width implies out@[old(out)@.len() + i] as nat == h[i] by {
                if i < width - 1 {
                    assert(h[i] == t[i]);
                }
            }
        }
    }
}

/// The canonical text of a work identifier.
pub fn id_string(id: u128) -> (s: String)
    ensures
        s@ == id_text(id),
{
    let mut digits: Vec<u8> = Vec::new();
    push_nibbles(&mut digits, id, 32);
    let ghost nibbles = hex_nibbles(id as nat, 32);
    let mut s = String::new();
    let mut i: usize = 0;
    while i < 32
        invariant
            i <= 32,
            digits@.len() == 32,
            forall|j: int| 0 <= j < 32 ==> digits@[j] as nat == nibbles[j],
            nibbles == hex_nibbles(id as nat, 32),
            s@ == dashed_hex(nibbles, i as nat),
        decreases 32 - i,
    {
        if i == 8 || i == 12 || i == 16 || i == 20 {
            s.append("-");
            proof { reveal_strlit("-"); }
        }
        let d = digits[i];
        assert(d < 16) by {
            lemma_nibble_bound(id as nat, 32, i as int);
        }
        s.append(digit_str(d));
        i = i + 1;
    }
    s
}

proof fn lemma_nibble_bound(n: nat, width: nat, i: int)
    ensures
        hex_nibbles(n, width).len() == width,
        0 <= i < width ==> hex_nibbles(n, width)[i] < 16,
    decreases width,
{
    if width > 0 {
        lemma_nibble_bound(n / 16, (width - 1) as nat, i);
    }
}

} // verus!

verus! {

/// The bit pattern of the single-precision value 85.0, the default
/// temperature limit in degrees Celsius.
pub const DEFAULT_TEMPERATURE_LIMIT_BITS: u32 = 0x42aa_0000;

/// How many recent readings a device keeps.
pub const READING_WINDOW: usize = 100;

/// The settings of one device. The temperature limit is the bit pattern of
/// its single-precision value in degrees Celsius.
#[derive(Debug, Clone, Copy, PartialEq, Eq)]
pub struct DeviceConfig {
    pub chain_id: u8,
    pub enabled: bool,
    pub frequency: u32,
    pub voltage: u32,
    pub auto_tune: bool,
    pub chip_count: u32,
    pub temperature_limit_bits: u32,
    pub fan_speed: Option<u32>,
}

impl Default for DeviceConfig {
    /// Chain 0, enabled, 500 MHz at 850 mV with tuning, 76 chips, an 85 °C
    /// limit and no fixed fan speed.
    fn default() -> (r: Self)
        ensures
            r == (DeviceConfig {
                chain_id: 0,
                enabled: true,
                frequency: 500,
                voltage: 850,
                auto_tune: true,
                chip_count: 76,
                temperature_limit_bits: DEFAULT_TEMPERATURE_LIMIT_BITS,
                fan_speed: None,
            }),
    {
        DeviceConfig {
            chain_id: 0,
            enabled: true,
            frequency: 500,
            voltage: 850,
            auto_tune: true,
            chip_count: 76,
            temperature_limit_bits: DEFAULT_TEMPERATURE_LIMIT_BITS,
            fan_speed: None,
        }
    }
}

/// What is known of a device. Times are milliseconds since the Unix epoch;
/// the temperature is the bit pattern of its single-precision value and the
/// hash rate that of its double-precision value.
#[derive(Debug, Clone)]
pub struct DeviceInfo {
    pub id: u32,
    pub name: String,
    pub device_type: String,
    pub chain_id: u8,
    pub chip_count: u32,
    pub status: DeviceStatus,
    pub temperature_bits: Option<u32>,
    pub fan_speed: Option<u32>,
    pub voltage: Option<u32>,
    pub frequency: Option<u32>,
    pub hashrate_bits: u64,
    pub accepted_shares: u64,
    pub rejected_shares: u64,
    pub hardware_errors: u64,
    pub uptime_ms: u64,
    pub last_share_time: Option<u64>,
    pub created_at: u64,
    pub updated_at: u64,
}

impl DeviceInfo {
    /// A device first seen now: uninitialized, with no chips, readings or
    /// shares, created and updated at the same moment.
    pub fn new(id: u32, name: String, device_type: String, chain_id: u8) -> (r: Self)
        ensures
            r.id == id,
            r.name == name,
            r.device_type == device_type,
            r.chain_id == chain_id,
            r.chip_count == 0,
            r.status == DeviceStatus::Uninitialized,
            r.temperature_bits.is_none(),
            r.fan_speed.is_none(),
            r.voltage.is_none(),
            r.frequency.is_none(),
            r.hashrate_bits == 0,
            r.accepted_shares == 0,
            r.rejected_shares == 0,
            r.hardware_errors == 0,
            r.uptime_ms == 0,
            r.last_share_time.is_none(),
            r.created_at == r.updated_at,
    {
        DeviceInfo::new_at(id, name, device_type, chain_id, crate::clock::now_millis())
    }

    /// A device first seen at `now`: uninitialized, with no chips, readings
    /// or shares.
    pub fn new_at(id: u32, name: String, device_type: String, chain_id: u8, now: u64) -> (r: Self)
        ensures
            r.id == id,
            r.name == name,
            r.device_type == device_type,
            r.chain_id == chain_id,
            r.chip_count == 0,
            r.status == DeviceStatus::Uninitialized,
            r.temperature_bits.is_none(),
            r.fan_speed.is_none(),
            r.voltage.is_none(),
            r.frequency.is_none(),
            r.hashrate_bits == 0,
            r.accepted_shares == 0,
            r.rejected_shares == 0,
            r.hardware_errors == 0,
            r.uptime_ms == 0,
            r.last_share_time.is_none(),
            r.created_at == now,
            r.updated_at == now,
    {
        DeviceInfo {
            id,
            name,
            device_type,
            chain_id,
            chip_count: 0,
            status: DeviceStatus::Uninitialized,
            temperature_bits: None,
            fan_speed: None,
            voltage: None,
            frequency: None,
            hashrate_bits: 0,
            accepted_shares: 0,
            rejected_shares: 0,
            hardware_errors: 0,
            uptime_ms: 0,
            last_share_time: None,
            created_at: now,
            updated_at: now,
        }
    }

    /// Sets the status at time `now`.
    pub fn update_status_at(&mut self, status: DeviceStatus, now: u64)
        ensures
            *final(self) == (DeviceInfo { status: status, updated_at: now, ..*old(self) }),
    {
        self.status = status;
        self.updated_at = now;
    }

    /// Records a temperature reading at time `now`.
    pub fn update_temperature_at(&mut self, temperature_bits: u32, now: u64)
        ensures
            *final(self) == (DeviceInfo {
                temperature_bits: Some(temperature_bits),
                updated_at: now,
                ..*old(self)
            }),
    {
        self.temperature_bits = Some(temperature_bits);
        self.updated_at = now;
    }

    /// Records the hash rate at time `now`.
    pub fn update_hashrate_at(&mut self, hashrate_bits: u64, now: u64)
        ensures
            *final(self) == (DeviceInfo { hashrate_bits: hashrate_bits, updated_at: now, ..*old(self) }),
    {
        self.hashrate_bits = hashrate_bits;
        self.updated_at = now;
    }

    /// Counts an accepted share found at time `now`.
    pub fn increment_accepted_shares_at(&mut self, now: u64)
        requires
            old(self).accepted_shares < u64::MAX,
        ensures
            *final(self) == (DeviceInfo {
                accepted_shares: (old(self).accepted_shares + 1) as u64,
                last_share_time: Some(now),
                updated_at: now,
                ..*old(self)
            }),
    {
        self.accepted_shares = self.accepted_shares + 1;
        self.last_share_time = Some(now);
        self.updated_at = now;
    }

    /// Counts a rejected share at time `now`.
    pub fn increment_rejected_shares_at(&mut self, now: u64)
        requires
            old(self).rejected_shares < u64::MAX,
        ensures
            *final(self) == (DeviceInfo {
                rejected_shares: (old(self).rejected_shares + 1) as u64,
                updated_at: now,
                ..*old(self)
            }),
    {
        self.rejected_shares = self.rejected_shares + 1;
        self.updated_at = now;
    }

    /// Counts a hardware error at time `now`.
    pub fn increment_hardware_errors_at(&mut self, now: u64)
        requires
            old(self).hardware_errors < u64::MAX,
        ensures
            *final(self) == (DeviceInfo {
                hardware_errors: (old(self).hardware_errors + 1) as u64,
                updated_at: now,
                ..*old(self)
            }),
    {
        self.hardware_errors = self.hardware_errors + 1;
        self.updated_at = now;
    }

    /// Whether the device is idle or mining.
    pub fn is_healthy(&self) -> (b: bool)
        ensures
            b == (self.status is Idle || self.status is Mining),
    {
        self.status.is_healthy()
    }

    /// Whether the device is overheated.
    pub fn is_overheated(&self) -> (b: bool)
        ensures
            b == self.status is Overheated,
    {
        match self.status {
            DeviceStatus::Overheated => true,
            _ => false,
        }
    }
}

/// `window` after `x` is added: the last `READING_WINDOW` readings.
pub open spec fn push_window<T>(window: Seq<T>, x: T) -> Seq<T> {
    let pushed = window.push(x);
    if pushed.len() > READING_WINDOW {
        pushed.subrange(pushed.len() - READING_WINDOW, pushed.len() as int)
    } else {
        pushed
    }
}

/// Appends `x` to `readings` and, past the window, drops the oldest.
fn push_reading<T>(readings: &mut Vec<T>, x: T)
    requires
        old(readings)@.len() <= READING_WINDOW,
    ensures
        final(readings)@ == push_window(old(readings)@, x),
        final(readings)@.len() <= READING_WINDOW,
{
    readings.push(x);
    if readings.len() > READING_WINDOW {
        readings.remove(0);
        assert(readings@ =~= push_window(old(readings)@, x));
    }
}

/// Counters and recent readings of a device. Temperatures are bit patterns
/// of single-precision values, hash rates of double-precision values; the
/// restart time is milliseconds since the Unix epoch.
#[derive(Debug, Clone)]
pub struct DeviceStats {
    pub total_hashes: u64,
    pub valid_nonces: u64,
    pub invalid_nonces: u64,
    pub hardware_errors: u64,
    pub temperature_readings: Vec<u32>,
    pub hashrate_history: Vec<u64>,
    pub uptime_seconds: u64,
    pub restart_count: u32,
    pub last_restart_time: Option<u64>,
}

impl DeviceStats {
    /// Both reading windows hold at most `READING_WINDOW` readings.
    pub open spec fn well_formed(&self) -> bool {
        &&& self.temperature_readings@.len() <= READING_WINDOW
        &&& self.hashrate_history@.len() <= READING_WINDOW
    }

    /// Zero counters and no readings.
    pub fn new() -> (r: Self)
        ensures
            r.well_formed(),
            r.total_hashes == 0,
            r.valid_nonces == 0,
            r.invalid_nonces == 0,
            r.hardware_errors == 0,
            r.temperature_readings@.len() == 0,
            r.hashrate_history@.len() == 0,
            r.uptime_seconds == 0,
            r.restart_count == 0,
            r.last_restart_time.is_none(),
    {
        DeviceStats {
            total_hashes: 0,
            valid_nonces: 0,
            invalid_nonces: 0,
            hardware_errors: 0,
            temperature_readings: Vec::new(),
            hashrate_history: Vec::new(),
            uptime_seconds: 0,
            restart_count: 0,
            last_restart_time: None,
        }
    }

    /// Adds `count` hashes.
    pub fn record_hash(&mut self, count: u64)
        requires
            old(self).total_hashes + count <= u64::MAX,
        ensures
            *final(self) == (DeviceStats { total_hashes: (old(self).total_hashes + count) as u64, ..*old(self) }),
    {
        self.total_hashes = self.total_hashes + count;
    }

    /// Counts a valid nonce.
    pub fn record_valid_nonce(&mut self)
        requires
            old(self).valid_nonces < u64::MAX,
        ensures
            *final(self) == (DeviceStats { valid_nonces: (old(self).valid_nonces + 1) as u64, ..*old(self) }),
    {
        self.valid_nonces = self.valid_nonces + 1;
    }

    /// Counts an invalid nonce.
    pub fn record_invalid_nonce(&mut self)
        requires
            old(self).invalid_nonces < u64::MAX,
        ensures
            *final(self) == (DeviceStats { invalid_nonces: (old(self).invalid_nonces + 1) as u64, ..*old(self) }),
    {
        self.invalid_nonces = self.invalid_nonces + 1;
    }

    /// Counts a hardware error.
    pub fn record_hardware_error(&mut self)
        requires
            old(self).hardware_errors < u64::MAX,
        ensures
            *final(self) == (DeviceStats { hardware_errors: (old(self).hardware_errors + 1) as u64, ..*old(self) }),
    {
        self.hardware_errors = self.hardware_errors + 1;
    }

    /// Records a temperature reading, keeping the latest hundred.
    pub fn record_temperature(&mut self, temperature_bits: u32)
        requires
            old(self).well_formed(),
        ensures
            final(self).well_formed(),
            final(self).temperature_readings@ == push_window(old(self).temperature_readings@, temperature_bits),
            final(self).hashrate_history == old(self).hashrate_history,
            final(self).total_hashes == old(self).total_hashes,
            final(self).valid_nonces == old(self).valid_nonces,
            final(self).invalid_nonces == old(self).invalid_nonces,
            final(self).hardware_errors == old(self).hardware_errors,
            final(self).uptime_seconds == old(self).uptime_seconds,
            final(self).restart_count == old(self).restart_count,
            final(self).last_restart_time == old(self).last_restart_time,
    {
        push_reading(&mut self.temperature_readings, temperature_bits);
    }

    /// Records a hash rate reading, keeping the latest hundred.
    pub fn record_hashrate(&mut self, hashrate_bits: u64)
        requires
            old(self).well_formed(),
        ensures
            final(self).well_formed(),
            final(self).hashrate_history@ == push_window(old(self).hashrate_history@, hashrate_bits),
            final(self).temperature_readings == old(self).temperature_readings,
            final(self).total_hashes == old(self).total_hashes,
            final(self).valid_nonces == old(self).valid_nonces,
            final(self).invalid_nonces == old(self).invalid_nonces,
            final(self).hardware_errors == old(self).hardware_errors,
            final(self).uptime_seconds == old(self).uptime_seconds,
            final(self).restart_count == old(self).restart_count,
            final(self).last_restart_time == old(self).last_restart_time,
    {
        push_reading(&mut self.hashrate_history, hashrate_bits);
    }

    /// Counts a restart made at time `now`.
    pub fn record_restart_at(&mut self, now: u64)
        requires
            old(self).restart_count < u32::MAX,
        ensures
            *final(self) == (DeviceStats {
                restart_count: (old(self).restart_count + 1) as u32,
                last_restart_time: Some(now),
                ..*old(self)
            }),
    {
        self.restart_count = self.restart_count + 1;
        self.last_restart_time = Some(now);
    }
}

/// A reading window never holds more than `READING_WINDOW` readings, and it
/// always ends with the reading added last.
pub proof fn lemma_window_keeps_latest<T>(window: Seq<T>, x: T)
    requires
        window.len() <= READING_WINDOW,
    ensures
        push_window(window, x).len() <= READING_WINDOW,
        push_window(window, x).len() > 0,
        push_window(window, x).last() == x,
        push_window(window, x).len() == (if window.len() < READING_WINDOW { window.len() + 1 } else { READING_WINDOW as nat }),
{
}


/// The number of idle or mining devices among the first `n` of `infos`.
pub open spec fn healthy_count(infos: Seq<DeviceInfo>, n: int) -> nat
    decreases n,
{
    if n <= 0 {
        0
    } else {
        healthy_count(infos, n - 1)
            + (if infos[n - 1].status is Idle || infos[n - 1].status is Mining { 1nat } else { 0nat })
    }
}

/// The number of devices among `infos` that are idle or mining, as a `u32`
/// (modulo 2^32).
pub fn active_device_count(infos: &Vec<DeviceInfo>) -> (r: u32)
    ensures
        r == healthy_count(infos@, infos@.len() as int) % 0x1_0000_0000,
{
    let mut n: u64 = 0;
    let mut i: usize = 0;
    while i < infos.len()
        invariant
            i <= infos@.len(),
            n == healthy_count(infos@, i as int),
            n <= i,
        decreases infos@.len() - i,
    {
        if infos[i].is_healthy() {
            n = n + 1;
        }
        i = i + 1;
    }
    assert(n as u32 == n % 0x1_0000_0000) by (bit_vector);
    n as u32
}

} // verus!
