//! The virtual device: its driver, the upkeep of its record, and its
//! proof-of-work search, double SHA-256 of the block header over a run of
//! nonces checked against the target.

use vstd::prelude::*;
use sha2::Digest;
use crate::device::{DeviceConfig, DeviceInfo, DeviceStatus, Work, id_string, id_text};
use crate::error::DeviceError;
use crate::logging::formatter::{decimal, push_decimal};

verus! {

/// The SHA-256 digest of `data`, as computed by the sha2 crate.
pub uninterp spec fn sha256_of(data: Seq<u8>) -> Seq<u8>;

/// The SHA-256 digest of `data`, computed by `sha2::Sha256::digest`.
///
/// The contract names the digest as a function of the input bytes alone; the
/// 32-byte length comes from the array type. Nothing else of SHA-256 is stated.
#[verifier::external_body]
fn sha256(data: &[u8]) -> (digest: [u8; 32])
    ensures
        digest@ == sha256_of(data@),
{
    sha2::Sha256::digest(data).into()
}

/// 256 to the power `n`.
pub open spec fn pow256(n: nat) -> nat
    decreases n,
{
    if n == 0 {
        1
    } else {
        256 * pow256((n - 1) as nat)
    }
}

/// The number that the first `n` bytes of `s` denote, least significant byte
/// first.
pub open spec fn le_value(s: Seq<u8>, n: nat) -> nat
    decreases n,
{
    if n == 0 {
        0
    } else {
        le_value(s, (n - 1) as nat) + s[n - 1] as nat * pow256((n - 1) as nat)
    }
}

/// A hash meets a target when, both read as 256-bit little-endian numbers,
/// the hash is at most the target.
pub open spec fn meets_target(hash: Seq<u8>, target: Seq<u8>) -> bool {
    le_value(hash, 32) <= le_value(target, 32)
}

/// The bytes of `n` least significant first.
pub open spec fn le_bytes(n: u32) -> Seq<u8> {
    seq![(n % 256) as u8, ((n / 256) % 256) as u8, ((n / 65536) % 256) as u8, (n / 16777216) as u8]
}

/// The header with `nonce` written over its last four bytes.
pub open spec fn header_with_nonce(header: Seq<u8>, nonce: u32) -> Seq<u8> {
    header.subrange(0, 76) + le_bytes(nonce)
}

/// The double SHA-256 of the header carrying `nonce`.
pub open spec fn block_hash(header: Seq<u8>, nonce: u32) -> Seq<u8> {
    sha256_of(sha256_of(header_with_nonce(header, nonce)))
}

proof fn lemma_pow256_positive(n: nat)
    ensures
        pow256(n) > 0,
    decreases n,
{
    if n > 0 {
        lemma_pow256_positive((n - 1) as nat);
    }
}

/// The first `n` bytes denote less than `256^n`.
proof fn lemma_le_value_bound(s: Seq<u8>, n: nat)
    ensures
        le_value(s, n) < pow256(n),
    decreases n,
{
    if n > 0 {
        let m = (n - 1) as nat;
        lemma_le_value_bound(s, m);
        lemma_pow256_positive(m);
        let p = pow256(m);
        let b = s[m as int] as nat;
        assert(b * p <= 255 * p) by (nonlinear_arith)
            requires
                b <= 255;
    }
}

/// When the bytes above position `i` agree and byte `i` of `h` is smaller,
/// `h` denotes the smaller number over the first `n` bytes.
proof fn lemma_le_value_differs(h: Seq<u8>, t: Seq<u8>, i: nat, n: nat)
    requires
        i < n,
        h[i as int] < t[i as int],
        forall|j: int| i < j < n ==> h[j] == t[j],
    ensures
        le_value(h, n) < le_value(t, n),
    decreases n,
{
    if n > i + 1 {
        lemma_le_value_differs(h, t, i, (n - 1) as nat);
    } else {
        lemma_le_value_bound(h, i);
        let p = pow256(i);
        let a = h[i as int] as nat;
        let b = t[i as int] as nat;
        assert(a * p + p <= b * p) by (nonlinear_arith)
            requires
                a + 1 <= b;
    }
}

/// When the bytes from position `i` up agree, the numbers of the first `n`
/// bytes differ as those of the first `i` do.
proof fn lemma_le_value_same_top(h: Seq<u8>, t: Seq<u8>, i: nat, n: nat)
    requires
        i <= n,
        forall|j: int| i <= j < n ==> h[j] == t[j],
    ensures
        le_value(h, n) - le_value(h, i) == le_value(t, n) - le_value(t, i),
    decreases n,
{
    if n > i {
        lemma_le_value_same_top(h, t, i, (n - 1) as nat);
    }
}

/// Whether `hash` meets `target`: the hash, read as a little-endian number
/// over its first 32 bytes, is at most the target.
pub fn hash_meets_target(hash: &[u8], target: &[u8; 32]) -> (b: bool)
    requires
        hash@.len() >= 32,
    ensures
        b == meets_target(hash@, target@),
{
    let mut i: usize = 32;
    while i > 0
        invariant
            i <= 32,
            hash@.len() >= 32,
            target@.len() == 32,
            forall|j: int| i <= j < 32 ==> hash@[j] == target@[j],
        decreases i,
    {
        let k = i - 1;
        if hash[k] < target[k] {
            proof {
                lemma_le_value_differs(hash@, target@, k as nat, 32);
            }
            return true;
        } else if hash[k] > target[k] {
            proof {
                lemma_le_value_differs(target@, hash@, k as nat, 32);
            }
            return false;
        }
        i = k;
    }
    proof {
        lemma_le_value_same_top(hash@, target@, 0, 32);
    }
    true
}

/// Searches `max_iterations` nonces from `start_nonce` on (wrapping around)
/// for one whose double SHA-256 header hash meets `target`, and returns the
/// first found.
pub fn mine_bitcoin_block(header: &[u8; 80], target: &[u8; 32], start_nonce: u32, max_iterations: u32) -> (r: Option<u32>)
    ensures
        r matches Some(nonce) ==> exists|i: u32| i < max_iterations && nonce == start_nonce.wrapping_add(i)
            && meets_target(block_hash(header@, nonce), target@)
            && forall|j: u32| j < i ==> !meets_target(block_hash(header@, start_nonce.wrapping_add(j)), target@),
        r is None ==> forall|j: u32| j < max_iterations ==> !meets_target(
            block_hash(header@, start_nonce.wrapping_add(j)), target@),
{
    let mut work_header: [u8; 80] = *header;
    let mut i: u32 = 0;
    while i < max_iterations
        invariant
            i <= max_iterations,
            work_header@.len() == 80,
            work_header@.subrange(0, 76) == header@.subrange(0, 76),
            forall|j: u32| j < i ==> !meets_target(block_hash(header@, start_nonce.wrapping_add(j)), target@),
        decreases max_iterations - i,
    {
        let nonce = start_nonce.wrapping_add(i);
        work_header.set(76, (nonce % 256) as u8);
        work_header.set(77, ((nonce / 256) % 256) as u8);
        work_header.set(78, ((nonce / 65536) % 256) as u8);
        work_header.set(79, (nonce / 16777216) as u8);
        proof {
            assert(work_header@ =~= header_with_nonce(header@, nonce));
        }
        let hash1 = sha256(work_header.as_slice());
        let hash2 = sha256(hash1.as_slice());
        proof {
            broadcast use vstd::array::group_array_axioms;
            assert(hash2@ == block_hash(header@, nonce));
        }
        if hash_meets_target(hash2.as_slice(), target) {
            proof {
                broadcast use vstd::array::group_array_axioms;
                assert(meets_target(block_hash(header@, nonce), target@));
                assert(i < max_iterations && nonce == start_nonce.wrapping_add(i)
                    && meets_target(block_hash(header@, nonce), target@)
                    && forall|j: u32| j < i ==> !meets_target(block_hash(header@, start_nonce.wrapping_add(j)), target@));
            }
            return Some(nonce);
        }
        proof {
            assert forall|j: u32| j < i + 1 implies !meets_target(block_hash(header@, start_nonce.wrapping_add(j)), target@) by {
                if j == i {
                }
            }
        }
        i = i + 1;
    }
    None
}

/// The number of nonces a virtual device tries per batch: a tenth of its
/// hashes per second, at least 1000.
pub fn mining_batch_size(hashes_per_second: u32) -> (r: u32)
    ensures
        r == (if hashes_per_second / 10 >= 1000 { hashes_per_second / 10 } else { 1000 }),
{
    let tenth = hashes_per_second / 10;
    if tenth >= 1000 { tenth } else { 1000 }
}

/// How long one work item is mined before the device waits for new work,
/// in milliseconds.
pub const WORK_ROUND_LIMIT_MS: u64 = 30_000;

/// Mining of one work item, batch by batch: where the next batch starts and
/// how many nonces were tried.
#[derive(Debug, Clone, Copy, PartialEq, Eq)]
pub struct MiningRound {
    pub next_nonce: u32,
    pub total_hashes: u64,
}

impl MiningRound {
    /// A round that starts at `start_nonce` with nothing tried.
    pub fn new(start_nonce: u32) -> (r: Self)
        ensures
            r.next_nonce == start_nonce,
            r.total_hashes == 0,
    {
        MiningRound { next_nonce: start_nonce, total_hashes: 0 }
    }

    /// Tries the next `batch` nonces on `header` against `target`: the count
    /// of tried nonces grows by `batch`, the next batch starts `batch` further
    /// on (wrapping around), and the first nonce of this batch whose hash
    /// meets the target is returned.
    pub fn mine_batch(&mut self, header: &[u8; 80], target: &[u8; 32], batch: u32) -> (r: Option<u32>)
        requires
            old(self).total_hashes + batch <= u64::MAX,
        ensures
            final(self).total_hashes == old(self).total_hashes + batch,
            final(self).next_nonce == old(self).next_nonce.wrapping_add(batch),
            r matches Some(nonce) ==> exists|i: u32| i < batch && nonce == old(self).next_nonce.wrapping_add(i)
                && meets_target(block_hash(header@, nonce), target@)
                && forall|j: u32| j < i ==> !meets_target(block_hash(header@, old(self).next_nonce.wrapping_add(j)), target@),
            r is None ==> forall|j: u32| j < batch ==> !meets_target(
                block_hash(header@, old(self).next_nonce.wrapping_add(j)), target@),
    {
        let found = mine_bitcoin_block(header, target, self.next_nonce, batch);
        self.total_hashes = self.total_hashes + batch as u64;
        self.next_nonce = self.next_nonce.wrapping_add(batch);
        found
    }
}

/// Whether a work item mined for `elapsed_ms` milliseconds is left for new
/// work: after more than thirty seconds.
pub fn work_round_expired(elapsed_ms: u64) -> (r: bool)
    ensures
        r == (elapsed_ms > WORK_ROUND_LIMIT_MS),
{
    elapsed_ms > WORK_ROUND_LIMIT_MS
}

} // verus!

verus! {

/// The bit pattern of the single-precision value 80.0.
pub const VIRTUAL_TEMPERATURE_LIMIT_BITS: u32 = 0x42a0_0000;

/// The bit pattern of the single-precision value 45.0, the temperature a
/// virtual device starts at.
pub const VIRTUAL_START_TEMPERATURE_BITS: u32 = 0x4234_0000;

/// The driver of virtual devices, which mine with real hashes on the CPU.
pub struct VirtualDeviceDriver {
    version: &'static str,
}

impl VirtualDeviceDriver {
    /// The driver, version 1.0.0.
    pub fn new() -> (r: Self)
        ensures
            r.version_text() == "1.0.0"@,
    {
        VirtualDeviceDriver { version: "1.0.0" }
    }

    /// The driver's version.
    pub closed spec fn version_text(&self) -> Seq<char> {
        self.version@
    }

    /// The driver's version.
    pub fn version(&self) -> (r: &'static str)
        ensures
            r@ == self.version_text(),
    {
        self.version
    }

    /// The driver's name.
    pub fn driver_name(&self) -> (r: &'static str)
        ensures
            r@ == "virtual-device"@,
    {
        "virtual-device"
    }

    /// The device types the driver handles.
    pub fn supported_devices(&self) -> (r: Vec<&'static str>)
        ensures
            r@.len() == 1,
            r@[0]@ == "virtual"@,
    {
        vec!["virtual"]
    }

    /// Virtual devices accept any settings.
    pub fn validate_config(&self, config: &DeviceConfig) -> (r: Result<(), DeviceError>)
        ensures
            r is Ok,
    {
        Ok(())
    }

    /// The settings of a new virtual device: 600 MHz at 900 mV without
    /// tuning, 64 chips, an 80 °C limit and the fan at 50.
    pub fn default_config(&self) -> (r: DeviceConfig)
        ensures
            r == (DeviceConfig {
                chain_id: 0,
                enabled: true,
                frequency: 600,
                voltage: 900,
                auto_tune: false,
                chip_count: 64,
                temperature_limit_bits: VIRTUAL_TEMPERATURE_LIMIT_BITS,
                fan_speed: Some(50),
            }),
    {
        DeviceConfig {
            chain_id: 0,
            enabled: true,
            frequency: 600,
            voltage: 900,
            auto_tune: false,
            chip_count: 64,
            temperature_limit_bits: VIRTUAL_TEMPERATURE_LIMIT_BITS,
            fan_speed: Some(50),
        }
    }

    /// The four virtual devices a scan finds at time `now`: identifiers 1000
    /// to 1003, on chains 0 to 3.
    pub fn scan_devices_at(&self, now: u64) -> (r: Vec<DeviceInfo>)
        ensures
            r@.len() == 4,
            forall|i: int| 0 <= i < 4 ==> {
                &&& (#[trigger] r@[i]).id == 1000 + i
                &&& r@[i].name@ == "Virtual Device "@ + decimal(i as nat)
                &&& r@[i].device_type@ == "virtual"@
                &&& r@[i].chain_id == i
                &&& r@[i].status == DeviceStatus::Uninitialized
                &&& r@[i].created_at == now
            },
    {
        let mut r: Vec<DeviceInfo> = Vec::new();
        let mut i: u32 = 0;
        while i < 4
            invariant
                i <= 4,
                r@.len() == i,
                forall|j: int| 0 <= j < i ==> {
                    &&& (#[trigger] r@[j]).id == 1000 + j
                    &&& r@[j].name@ == "Virtual Device "@ + decimal(j as nat)
                    &&& r@[j].device_type@ == "virtual"@
                    &&& r@[j].chain_id == j
                    &&& r@[j].status == DeviceStatus::Uninitialized
                    &&& r@[j].created_at == now
                },
            decreases 4 - i,
        {
            let mut name = String::from_str("Virtual Device ");
            push_decimal(&mut name, i as u64);
            r.push(DeviceInfo::new_at(1000 + i, name, String::from_str("virtual"), i as u8, now));
            i = i + 1;
        }
        r
    }
}

/// The record of a virtual device after it is set up with `config` at time
/// `now`: idle, with the configured frequency, voltage, chips and fan, at
/// 45 °C.
pub fn initialized_info(info: DeviceInfo, config: &DeviceConfig, now: u64) -> (r: DeviceInfo)
    ensures
        r == (DeviceInfo {
            status: DeviceStatus::Idle,
            frequency: Some(config.frequency),
            voltage: Some(config.voltage),
            chip_count: config.chip_count,
            temperature_bits: Some(VIRTUAL_START_TEMPERATURE_BITS),
            fan_speed: config.fan_speed,
            updated_at: now,
            ..info
        }),
{
    let mut r = info;
    r.update_status_at(DeviceStatus::Idle, now);
    r.frequency = Some(config.frequency);
    r.voltage = Some(config.voltage);
    r.chip_count = config.chip_count;
    r.temperature_bits = Some(VIRTUAL_START_TEMPERATURE_BITS);
    r.fan_speed = config.fan_speed;
    r
}

/// The record of a virtual device whose statistics were reset at time
/// `now`: no shares, errors or last share.
pub fn info_with_stats_reset(info: DeviceInfo, now: u64) -> (r: DeviceInfo)
    ensures
        r == (DeviceInfo {
            accepted_shares: 0,
            rejected_shares: 0,
            hardware_errors: 0,
            last_share_time: None,
            updated_at: now,
            ..info
        }),
{
    let mut r = info;
    r.accepted_shares = 0;
    r.rejected_shares = 0;
    r.hardware_errors = 0;
    r.last_share_time = None;
    r.updated_at = now;
    r
}

/// Refuses work that has expired at time `now`.
pub fn check_work_fresh(work: &Work, now: u64) -> (r: Result<(), DeviceError>)
    ensures
        now > work.expires_at ==> (r matches Err(e) && (e matches DeviceError::InvalidConfig { reason }
            && reason@ == "Work "@ + id_text(work.id) + " has expired"@)),
        now <= work.expires_at ==> r is Ok,
{
    if work.is_expired_at(now) {
        let mut reason = String::from_str("Work ");
        let id = id_string(work.id);
        reason.append(id.as_str());
        reason.append(" has expired");
        return Err(DeviceError::InvalidConfig { reason });
    }
    Ok(())
}

/// Whether a share hash meets the simulated pool's difficulty: its first two
/// bytes are zero and its third is below 0x10.
pub fn check_share_difficulty(hash: &[u8]) -> (r: bool)
    requires
        hash@.len() >= 3,
    ensures
        r == (hash@[0] == 0 && hash@[1] == 0 && hash@[2] < 0x10),
{
    hash[0] == 0 && hash[1] == 0 && hash[2] < 0x10
}

} // verus!
