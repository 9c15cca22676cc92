//! The Maijie L7 ASIC driver: its settings rules, its identification
//! exchange and the simulated hardware link.

use vstd::prelude::*;
use crate::device::{DeviceConfig, DeviceInfo, DEFAULT_TEMPERATURE_LIMIT_BITS, Work};
use crate::device::chain::{framed, be_u32};
use crate::error::DeviceError;
use crate::logging::formatter::{decimal, push_decimal};

verus! {

/// The driver of Maijie L7 miners.
pub struct MaijieL7Driver {
    version: &'static str,
}

/// The frequency range of the chips, in MHz.
pub open spec fn frequency_text(frequency: u32) -> Seq<char> {
    "Frequency "@ + decimal(frequency as nat) + " MHz is out of range (100-800)"@
}

/// The voltage range of the chips, in mV.
pub open spec fn voltage_text(voltage: u32) -> Seq<char> {
    "Voltage "@ + decimal(voltage as nat) + " mV is out of range (600-1000)"@
}

/// The text of too many chips on a chain.
pub open spec fn chip_count_text(chip_count: u32) -> Seq<char> {
    "Chip count "@ + decimal(chip_count as nat) + " is too high (max 128)"@
}

/// The settings an L7 accepts, checked in turn: frequency 100 to 800 MHz,
/// voltage 600 to 1000 mV, at most 128 chips.
pub open spec fn l7_config_error(config: DeviceConfig) -> Option<Seq<char>> {
    if config.frequency < 100 || config.frequency > 800 {
        Some(frequency_text(config.frequency))
    } else if config.voltage < 600 || config.voltage > 1000 {
        Some(voltage_text(config.voltage))
    } else if config.chip_count > 128 {
        Some(chip_count_text(config.chip_count))
    } else {
        None
    }
}

impl MaijieL7Driver {
    /// The driver, version 1.0.0.
    pub fn new() -> (r: Self)
        ensures
            r.version_text() == "1.0.0"@,
    {
        MaijieL7Driver { version: "1.0.0" }
    }

    /// The driver's version.
    pub closed spec fn version_text(&self) -> Seq<char> {
        self.version@
    }

    /// The driver's version.
    pub fn version(&self) -> (r: &'static str)
        ensures
            r@ == self.version_text(),
    {
        self.version
    }

    /// The driver's name.
    pub fn driver_name(&self) -> (r: &'static str)
        ensures
            r@ == "Maijie L7"@,
    {
        "Maijie L7"
    }

    /// The device types the driver handles.
    pub fn supported_devices(&self) -> (r: Vec<&'static str>)
        ensures
            r@.len() == 2,
            r@[0]@ == "maijie-l7"@,
            r@[1]@ == "l7"@,
    {
        vec!["maijie-l7", "l7"]
    }

    /// Checks settings against what the chips accept.
    pub fn validate_config(&self, config: &DeviceConfig) -> (r: Result<(), DeviceError>)
        ensures
            match l7_config_error(*config) {
                None => r is Ok,
                Some(text) => r matches Err(e) && (e matches DeviceError::InvalidConfig { reason } && reason@ == text),
            },
    {
        if config.frequency < 100 || config.frequency > 800 {
            let mut reason = String::from_str("Frequency ");
            push_decimal(&mut reason, config.frequency as u64);
            reason.append(" MHz is out of range (100-800)");
            return Err(DeviceError::InvalidConfig { reason });
        }
        if config.voltage < 600 || config.voltage > 1000 {
            let mut reason = String::from_str("Voltage ");
            push_decimal(&mut reason, config.voltage as u64);
            reason.append(" mV is out of range (600-1000)");
            return Err(DeviceError::InvalidConfig { reason });
        }
        if config.chip_count > 128 {
            let mut reason = String::from_str("Chip count ");
            push_decimal(&mut reason, config.chip_count as u64);
            reason.append(" is too high (max 128)");
            return Err(DeviceError::InvalidConfig { reason });
        }
        Ok(())
    }

    /// The settings of a new L7 chain: 500 MHz at 850 mV with tuning, 76
    /// chips, an 85 °C limit.
    pub fn default_config(&self) -> (r: DeviceConfig)
        ensures
            r == (DeviceConfig {
                chain_id: 0,
                enabled: true,
                frequency: 500,
                voltage: 850,
                auto_tune: true,
                chip_count: 76,
                temperature_limit_bits: DEFAULT_TEMPERATURE_LIMIT_BITS,
                fan_speed: None,
            }),
    {
        DeviceConfig {
            chain_id: 0,
            enabled: true,
            frequency: 500,
            voltage: 850,
            auto_tune: true,
            chip_count: 76,
            temperature_limit_bits: DEFAULT_TEMPERATURE_LIMIT_BITS,
            fan_speed: None,
        }
    }

    /// The frame that asks a chain for its device identifier.
    pub fn read_id_command(&self) -> (r: Vec<u8>)
        ensures
            r@ == seq![0x55u8, 0xAAu8, 0x50u8, 0u8, 0u8, 0u8, 0u8, 0u8],
    {
        vec![0x55, 0xAA, 0x50, 0x00, 0x00, 0x00, 0x00, 0x00]
    }

    /// The device identifier an identification response of chain
    /// `chain_id` carries: bytes four to seven big-endian.
    pub fn parse_device_id(&self, chain_id: u8, response: &[u8]) -> (r: Result<u32, DeviceError>)
        ensures
            framed(response@, 8) ==> r == Ok::<u32, DeviceError>(
                be_u32(response@[4], response@[5], response@[6], response@[7]) as u32,
            ),
            !framed(response@, 8) ==> (r matches Err(e) && (e matches DeviceError::CommunicationError { device_id, error }
                && device_id == chain_id && error@ == "Invalid device ID response"@)),
    {
        if response.len() >= 8 && response[0] == 0x55 && response[1] == 0xAA {
            let b0 = response[4] as u32;
            let b1 = response[5] as u32;
            let b2 = response[6] as u32;
            let b3 = response[7] as u32;
            Ok(((b0 * 256 + b1) * 65536) + b2 * 256 + b3)
        } else {
            Err(DeviceError::CommunicationError {
                device_id: chain_id as u32,
                error: String::from_str("Invalid device ID response"),
            })
        }
    }

    /// The record of the device found on chain `chain_id` at time `now`.
    pub fn detected_device(&self, chain_id: u8, now: u64) -> (r: DeviceInfo)
        ensures
            r.id == chain_id as u32,
            r.name@ == "Maijie L7 Chain "@ + decimal(chain_id as nat),
            r.device_type@ == "maijie-l7"@,
            r.chain_id == chain_id,
            r.created_at == now,
    {
        let mut name = String::from_str("Maijie L7 Chain ");
        push_decimal(&mut name, chain_id as u64);
        DeviceInfo::new_at(chain_id as u32, name, String::from_str("maijie-l7"), chain_id, now)
    }
}

/// The 32 bytes of job data a chip gets for a unit of work: the first 32
/// bytes of the block header.
pub fn prepare_job_data(work: &Work) -> (r: Vec<u8>)
    ensures
        r@ == work.header@.subrange(0, 32),
{
    let mut r: Vec<u8> = Vec::new();
    let mut i: usize = 0;
    while i < 32
        invariant
            i <= 32,
            r@ == work.header@.subrange(0, i as int),
        decreases 32 - i,
    {
        r.push(work.header[i]);
        assert(work.header@.subrange(0, i + 1) =~= work.header@.subrange(0, i as int).push(work.header@[i as int]));
        i = i + 1;
    }
    r
}

/// The link to an L7 chain's hardware, simulated: every transfer is
/// answered by a framed, empty response.
pub struct MaijieL7Hardware {
    chain_id: u8,
}

impl MaijieL7Hardware {
    /// The chain the link talks to.
    pub closed spec fn chain(&self) -> u8 {
        self.chain_id
    }

    /// Opens the link to chain `chain_id`.
    pub fn new(chain_id: u8) -> (r: Result<Self, DeviceError>)
        ensures
            r matches Ok(h) && h.chain() == chain_id,
    {
        Ok(MaijieL7Hardware { chain_id })
    }

    /// The chain the link talks to.
    pub fn chain_id(&self) -> (r: u8)
        ensures
            r == self.chain(),
    {
        self.chain_id
    }

    /// The response to a transfer: the sync bytes and six zero bytes.
    pub fn spi_response(&self, data: &[u8]) -> (r: Vec<u8>)
        ensures
            r@ == seq![0x55u8, 0xAAu8, 0u8, 0u8, 0u8, 0u8, 0u8, 0u8],
    {
        vec![0x55, 0xAA, 0x00, 0x00, 0x00, 0x00, 0x00, 0x00]
    }
}


/// The Maijie L7 works between 600 and 1000 mV: every setting with a voltage
/// outside that band is refused, and where its frequency is in range the
/// refusal is about the voltage.
pub proof fn law_voltage_outside_600_1000_refused(config: DeviceConfig)
    requires
        config.voltage < 600 || config.voltage > 1000,
    ensures
        l7_config_error(config) is Some,
        100 <= config.frequency <= 800 ==> l7_config_error(config) == Some(voltage_text(config.voltage)),
{
}


/// The Maijie L7 runs from 100 to 800 MHz with at most 128 chips per chain:
/// a setting outside those bounds is refused, and one within them and within
/// 600 to 1000 mV is accepted.
pub proof fn law_l7_setting_bounds(config: DeviceConfig)
    ensures
        (config.frequency < 100 || config.frequency > 800 || config.chip_count > 128)
            ==> l7_config_error(config) is Some,
        (100 <= config.frequency <= 800 && 600 <= config.voltage <= 1000 && config.chip_count <= 128)
            ==> l7_config_error(config) is None,
{
}

} // verus!
