//! Choosing the mining core and settings for new devices, and the numbering
//! of the devices a core brings.

use vstd::prelude::*;
use crate::device::{DeviceConfig, DeviceInfo, DEFAULT_TEMPERATURE_LIMIT_BITS};
use crate::error::DeviceError;
use crate::logging::{eq_ascii_lower, ascii_lower_seq};
use crate::logging::formatter::{decimal, push_decimal};
use crate::text::{contains, parse_u32, parsed_u32, seq_contains, seq_starts_with, starts_with, str_equal};

verus! {

/// The two families of devices.
#[derive(Debug, Clone, Copy, PartialEq, Eq)]
pub enum DeviceKind {
    /// Devices that hash on the CPU.
    Software,
    /// Maijie L7 ASIC chains.
    Asic,
}

/// A core that drives software devices.
pub open spec fn is_software_core(id: Seq<char>) -> bool {
    seq_contains(id, "software"@) || seq_contains(id, "btc"@)
}

/// A core that drives ASIC chains.
pub open spec fn is_asic_core(id: Seq<char>) -> bool {
    seq_contains(id, "asic"@) || seq_contains(id, "maijie"@)
}

/// A core of family `kind`.
pub open spec fn is_core_for(kind: DeviceKind, id: Seq<char>) -> bool {
    match kind {
        DeviceKind::Software => is_software_core(id),
        DeviceKind::Asic => is_asic_core(id),
    }
}

/// `r` is the first of `ids` that drives family `kind`, or nothing when none
/// does.
pub open spec fn is_first_core(kind: DeviceKind, ids: Seq<Seq<char>>, r: Option<Seq<char>>) -> bool {
    match r {
        Some(id) => exists|i: int|
            0 <= i < ids.len() && ids[i] == id && is_core_for(kind, ids[i]) && forall|j: int|
                0 <= j < i ==> !is_core_for(kind, #[trigger] ids[j]),
        None => forall|i: int| 0 <= i < ids.len() ==> !is_core_for(kind, #[trigger] ids[i]),
    }
}

/// The family a requested device type names, ignoring case.
pub open spec fn kind_of_type(device_type: Seq<char>) -> Option<DeviceKind> {
    let t = ascii_lower_seq(device_type);
    if t == "software"@ || t == "btc"@ || t == "cpu"@ || t == "btc-software"@ {
        Some(DeviceKind::Software)
    } else if t == "asic"@ || t == "maijie-l7"@ || t == "l7"@ {
        Some(DeviceKind::Asic)
    } else {
        None
    }
}

/// The family a requested device type names. Only ASCII letters lower-case
/// into these names, so ASCII case folding decides as full case folding
/// would.
pub fn classify_device_type(device_type: &str) -> (r: Option<DeviceKind>)
    ensures
        r == kind_of_type(device_type@),
{
    if eq_ascii_lower(device_type, "software") || eq_ascii_lower(device_type, "btc")
        || eq_ascii_lower(device_type, "cpu") || eq_ascii_lower(device_type, "btc-software") {
        Some(DeviceKind::Software)
    } else if eq_ascii_lower(device_type, "asic") || eq_ascii_lower(device_type, "maijie-l7")
        || eq_ascii_lower(device_type, "l7") {
        Some(DeviceKind::Asic)
    } else {
        None
    }
}

/// Whether the core `id` drives family `kind`.
pub fn core_serves(kind: DeviceKind, id: &str) -> (r: bool)
    ensures
        r == is_core_for(kind, id@),
{
    match kind {
        DeviceKind::Software => contains(id, "software") || contains(id, "btc"),
        DeviceKind::Asic => contains(id, "asic") || contains(id, "maijie"),
    }
}

/// The reason given when no core drives family `kind`.
pub open spec fn missing_core_text(kind: DeviceKind) -> Seq<char> {
    match kind {
        DeviceKind::Software => "BTC软算法核心不可用"@,
        DeviceKind::Asic => "Maijie L7核心不可用"@,
    }
}

fn missing_core_reason(kind: DeviceKind) -> (r: String)
    ensures
        r@ == missing_core_text(kind),
{
    match kind {
        DeviceKind::Software => String::from_str("BTC软算法核心不可用"),
        DeviceKind::Asic => String::from_str("Maijie L7核心不可用"),
    }
}

/// The settings a device of family `kind` on chain `chain_id` starts with.
pub open spec fn start_config(kind: DeviceKind, chain_id: u8) -> DeviceConfig {
    match kind {
        DeviceKind::Software => DeviceConfig {
            chain_id: chain_id,
            enabled: true,
            frequency: 600,
            voltage: 12,
            auto_tune: false,
            chip_count: 1,
            temperature_limit_bits: DEFAULT_TEMPERATURE_LIMIT_BITS,
            fan_speed: None,
        },
        DeviceKind::Asic => DeviceConfig {
            chain_id: chain_id,
            enabled: true,
            frequency: 650,
            voltage: 900,
            auto_tune: true,
            chip_count: 126,
            temperature_limit_bits: DEFAULT_TEMPERATURE_LIMIT_BITS,
            fan_speed: Some(70),
        },
    }
}

/// The message of an unsupported device type.
pub open spec fn unsupported_type_text(device_type: Seq<char>) -> Seq<char> {
    "不支持的设备类型: "@ + device_type
}

fn unsupported_type(device_type: &str) -> (e: DeviceError)
    ensures
        e matches DeviceError::InvalidConfig { reason } && reason@ == unsupported_type_text(device_type@),
{
    let mut reason = String::from_str("不支持的设备类型: ");
    reason.append(device_type);
    DeviceError::InvalidConfig { reason }
}

/// The first identifier of software devices.
pub const SOFTWARE_DEVICE_ID_BASE: u32 = 1000;
/// The last identifier of software devices.
pub const SOFTWARE_DEVICE_ID_MAX: u32 = 1999;
/// The first identifier of ASIC chains.
pub const ASIC_DEVICE_ID_BASE: u32 = 2000;
/// The last identifier of ASIC chains.
pub const ASIC_DEVICE_ID_MAX: u32 = 2999;

/// The identifier of the `index`-th software device: counted from 1000,
/// falling back to 1000 past 1999.
pub fn allocate_software_device_id(index: u32) -> (id: u32)
    requires
        SOFTWARE_DEVICE_ID_BASE + index <= u32::MAX,
    ensures
        id == (if SOFTWARE_DEVICE_ID_BASE + index > SOFTWARE_DEVICE_ID_MAX {
            SOFTWARE_DEVICE_ID_BASE as int
        } else {
            SOFTWARE_DEVICE_ID_BASE + index
        }),
{
    let id = SOFTWARE_DEVICE_ID_BASE + index;
    if id > SOFTWARE_DEVICE_ID_MAX {
        SOFTWARE_DEVICE_ID_BASE
    } else {
        id
    }
}

/// The identifier of the `index`-th ASIC chain: counted from 2000, falling
/// back to 2000 past 2999.
pub fn allocate_asic_device_id(index: u32) -> (id: u32)
    requires
        ASIC_DEVICE_ID_BASE + index <= u32::MAX,
    ensures
        id == (if ASIC_DEVICE_ID_BASE + index > ASIC_DEVICE_ID_MAX {
            ASIC_DEVICE_ID_BASE as int
        } else {
            ASIC_DEVICE_ID_BASE + index
        }),
{
    let id = ASIC_DEVICE_ID_BASE + index;
    if id > ASIC_DEVICE_ID_MAX {
        ASIC_DEVICE_ID_BASE
    } else {
        id
    }
}

/// The device count a setting asks for: a number from 1 to 1000, or the
/// default when the setting is absent, unreadable or out of range.
pub open spec fn count_from(setting: Option<Seq<char>>, default: u32) -> u32 {
    match setting {
        Some(s) => match parsed_u32(s) {
            Some(n) => if 0 < n && n <= 1000 { n } else { default },
            None => default,
        },
        None => default,
    }
}

/// The device count a setting asks for.
pub fn device_count_from(setting: Option<&str>, default: u32) -> (r: u32)
    ensures
        r == count_from(match setting {
            Some(s) => Some(s@),
            None => None,
        }, default),
{
    match setting {
        Some(s) => match parse_u32(s) {
            Some(n) => if 0 < n && n <= 1000 { n } else { default },
            None => default,
        },
        None => default,
    }
}

/// The number of software devices: from the setting, else four.
pub fn software_device_count(setting: Option<&str>) -> (r: u32)
    ensures
        r == count_from(match setting {
            Some(s) => Some(s@),
            None => None,
        }, 4),
{
    device_count_from(setting, 4)
}

/// The number of ASIC chains: from the setting, else three.
pub fn asic_chain_count(setting: Option<&str>) -> (r: u32)
    ensures
        r == count_from(match setting {
            Some(s) => Some(s@),
            None => None,
        }, 3),
{
    device_count_from(setting, 3)
}

/// The family whose devices are listed for a core whose scan failed, by the
/// core's identifier.
pub fn fallback_kind(core_id: &str) -> (r: Option<DeviceKind>)
    ensures
        r == (if seq_starts_with(core_id@, "btc-software"@) {
            Some(DeviceKind::Software)
        } else if seq_starts_with(core_id@, "maijie-l7"@) {
            Some(DeviceKind::Asic)
        } else {
            None
        }),
{
    if starts_with(core_id, "btc-software") {
        Some(DeviceKind::Software)
    } else if starts_with(core_id, "maijie-l7") {
        Some(DeviceKind::Asic)
    } else {
        None
    }
}

/// The name of the `i`-th device listed for a family.
pub open spec fn listed_name(kind: DeviceKind, i: nat) -> Seq<char> {
    match kind {
        DeviceKind::Software => "Software Device "@ + decimal(i),
        DeviceKind::Asic => "ASIC Chain "@ + decimal(i),
    }
}

/// The device type of a family in device records.
pub open spec fn listed_type(kind: DeviceKind) -> Seq<char> {
    match kind {
        DeviceKind::Software => "software"@,
        DeviceKind::Asic => "asic"@,
    }
}

/// The identifier of the `i`-th device listed for a family.
pub open spec fn listed_id(kind: DeviceKind, i: nat) -> u32 {
    match kind {
        DeviceKind::Software => if 1000 + i > 1999 { 1000 } else { (1000 + i) as u32 },
        DeviceKind::Asic => if 2000 + i > 2999 { 2000 } else { (2000 + i) as u32 },
    }
}

/// The records of `count` devices of family `kind`, first seen at `now`:
/// numbered by family, named by position, each on the chain of its
/// position taken modulo 256.
pub fn listed_devices(kind: DeviceKind, count: u32, now: u64) -> (r: Vec<DeviceInfo>)
    requires
        count <= 1000,
    ensures
        r@.len() == count,
        forall|i: int| 0 <= i < count ==> {
            &&& (#[trigger] r@[i]).id == listed_id(kind, i as nat)
            &&& r@[i].name@ == listed_name(kind, i as nat)
            &&& r@[i].device_type@ == listed_type(kind)
            &&& r@[i].chain_id == (i % 256) as u8
            &&& r@[i].chip_count == 0
            &&& r@[i].created_at == now
        },
{
    let mut r: Vec<DeviceInfo> = Vec::new();
    let mut i: u32 = 0;
    while i < count
        invariant
            count <= 1000,
            i <= count,
            r@.len() == i,
            forall|j: int| 0 <= j < i ==> {
                &&& (#[trigger] r@[j]).id == listed_id(kind, j as nat)
                &&& r@[j].name@ == listed_name(kind, j as nat)
                &&& r@[j].device_type@ == listed_type(kind)
                &&& r@[j].chain_id == (j % 256) as u8
                &&& r@[j].chip_count == 0
                &&& r@[j].created_at == now
            },
        decreases count - i,
    {
        let (id, mut name, device_type) = match kind {
            DeviceKind::Software => (
                allocate_software_device_id(i),
                String::from_str("Software Device "),
                String::from_str("software"),
            ),
            DeviceKind::Asic => (
                allocate_asic_device_id(i),
                String::from_str("ASIC Chain "),
                String::from_str("asic"),
            ),
        };
        push_decimal(&mut name, i as u64);
        let chain = (i % 256) as u8;
        let info = DeviceInfo::new_at(id, name, device_type, chain, now);
        r.push(info);
        i = i + 1;
    }
    r
}

/// The texts of a list of strings.
pub open spec fn id_texts(ids: Seq<String>) -> Seq<Seq<char>> {
    ids.map_values(|s: String| s@)
}

/// Creates devices for the mining cores that are running.
pub struct UnifiedDeviceFactory {
    active_core_ids: Vec<String>,
    next_device_id: u32,
}

impl UnifiedDeviceFactory {
    /// The identifiers of the running cores.
    pub closed spec fn active_cores(&self) -> Seq<Seq<char>> {
        id_texts(self.active_core_ids@)
    }

    /// The identifier the next created device gets.
    pub closed spec fn next_id(&self) -> u32 {
        self.next_device_id
    }

    /// A factory that knows no running core; devices are numbered from 1.
    pub fn new() -> (r: Self)
        ensures
            r.active_cores() == Seq::<Seq<char>>::empty(),
            r.next_id() == 1,
    {
        let r = UnifiedDeviceFactory { active_core_ids: Vec::new(), next_device_id: 1 };
        assert(r.active_cores() =~= Seq::<Seq<char>>::empty());
        r
    }

    /// Takes the list of running cores.
    pub fn set_active_cores(&mut self, core_ids: Vec<String>)
        ensures
            final(self).active_cores() == id_texts(core_ids@),
            final(self).next_id() == old(self).next_id(),
    {
        self.active_core_ids = core_ids;
    }

    /// Fails when no core is running.
    pub fn initialize(&self) -> (r: Result<(), DeviceError>)
        ensures
            r is Ok <==> self.active_cores().len() > 0,
            r matches Err(e) ==> e matches DeviceError::InitializationFailed { device_id, reason }
                && device_id == 0 && reason@ == "没有可用的活跃核心"@,
    {
        if self.active_core_ids.len() == 0 {
            Err(DeviceError::InitializationFailed { device_id: 0, reason: String::from_str("没有可用的活跃核心") })
        } else {
            Ok(())
        }
    }

    /// The first running core that drives family `kind`.
    pub fn find_core(&self, kind: DeviceKind) -> (r: Option<String>)
        ensures
            is_first_core(kind, self.active_cores(), match r {
                Some(s) => Some(s@),
                None => None,
            }),
    {
        let ids = &self.active_core_ids;
        let ghost texts = self.active_cores();
        let mut i: usize = 0;
        while i < ids.len()
            invariant
                ids == &self.active_core_ids,
                texts == id_texts(ids@),
                i <= ids@.len(),
                forall|j: int| 0 <= j < i ==> !is_core_for(kind, #[trigger] texts[j]),
            decreases ids@.len() - i,
        {
            if core_serves(kind, ids[i].as_str()) {
                let found = ids[i].clone();
                assert(texts[i as int] == found@);
                return Some(found);
            }
            i = i + 1;
        }
        None
    }

    /// The device types that the running cores can create.
    pub fn get_available_device_types(&self) -> (r: Vec<String>)
        ensures
            id_texts(r@) == (if exists|i: int| 0 <= i < self.active_cores().len() && is_software_core(#[trigger] self.active_cores()[i]) {
                seq!["btc-software"@]
            } else {
                Seq::empty()
            }) + (if exists|i: int| 0 <= i < self.active_cores().len() && is_asic_core(#[trigger] self.active_cores()[i]) {
                seq!["maijie-l7"@]
            } else {
                Seq::empty()
            }),
    {
        let mut types: Vec<String> = Vec::new();
        let software = self.find_core(DeviceKind::Software);
        if software.is_some() {
            types.push(String::from_str("btc-software"));
        }
        let ghost after_software = id_texts(types@);
        let asic = self.find_core(DeviceKind::Asic);
        if asic.is_some() {
            types.push(String::from_str("maijie-l7"));
        }
        assert(id_texts(types@) =~= (if exists|i: int| 0 <= i < self.active_cores().len() && is_software_core(#[trigger] self.active_cores()[i]) {
            seq!["btc-software"@]
        } else {
            Seq::empty()
        }) + (if exists|i: int| 0 <= i < self.active_cores().len() && is_asic_core(#[trigger] self.active_cores()[i]) {
            seq!["maijie-l7"@]
        } else {
            Seq::empty()
        }));
        types
    }

    /// Picks the core and the starting settings of a device announced by a
    /// core scan: devices of type `software` or `asic` go to the first
    /// running core of their family.
    pub fn plan_device_from_info(&self, device_id: u32, device_type: &str, chain_id: u8) -> (r: Result<(String, DeviceConfig), DeviceError>)
        ensures
            device_type@ == "software"@ || device_type@ == "asic"@ ==> {
                let kind = if device_type@ == "software"@ { DeviceKind::Software } else { DeviceKind::Asic };
                match r {
                    Ok((core, config)) => is_first_core(kind, self.active_cores(), Some(core@))
                        && config == start_config(kind, chain_id),
                    Err(e) => is_first_core(kind, self.active_cores(), None)
                        && (e matches DeviceError::InitializationFailed { device_id: d, reason }
                        && d == device_id && reason@ == missing_core_text(kind)),
                }
            },
            !(device_type@ == "software"@ || device_type@ == "asic"@) ==> (r matches Err(e)
                && (e matches DeviceError::InvalidConfig { reason } && reason@ == unsupported_type_text(device_type@))),
    {
        let kind = if str_equal(device_type, "software") {
            DeviceKind::Software
        } else if str_equal(device_type, "asic") {
            DeviceKind::Asic
        } else {
            return Err(unsupported_type(device_type));
        };
        match self.find_core(kind) {
            Some(core) => {
                let config = match kind {
                    DeviceKind::Software => DeviceConfig {
                        chain_id,
                        enabled: true,
                        frequency: 600,
                        voltage: 12,
                        auto_tune: false,
                        chip_count: 1,
                        temperature_limit_bits: DEFAULT_TEMPERATURE_LIMIT_BITS,
                        fan_speed: None,
                    },
                    DeviceKind::Asic => DeviceConfig {
                        chain_id,
                        enabled: true,
                        frequency: 650,
                        voltage: 900,
                        auto_tune: true,
                        chip_count: 126,
                        temperature_limit_bits: DEFAULT_TEMPERATURE_LIMIT_BITS,
                        fan_speed: Some(70),
                    },
                };
                Ok((core, config))
            },
            None => Err(DeviceError::InitializationFailed { device_id, reason: missing_core_reason(kind) }),
        }
    }

    /// Picks the core of a device of the requested type and numbers the
    /// device: the type names a family, ignoring case; the first running core
    /// of that family drives it, and the device takes the next identifier.
    pub fn plan_device(&mut self, device_type: &str) -> (r: Result<(u32, String), DeviceError>)
        requires
            old(self).next_id() < u32::MAX,
        ensures
            final(self).active_cores() == old(self).active_cores(),
            match kind_of_type(device_type@) {
                None => (r matches Err(e) && (e matches DeviceError::InvalidConfig { reason }
                    && reason@ == unsupported_type_text(device_type@)))
                    && final(self).next_id() == old(self).next_id(),
                Some(kind) => match r {
                    Ok((id, core)) => is_first_core(kind, old(self).active_cores(), Some(core@))
                        && id == old(self).next_id() && final(self).next_id() == old(self).next_id() + 1,
                    Err(e) => is_first_core(kind, old(self).active_cores(), None)
                        && (e matches DeviceError::InitializationFailed { device_id, reason }
                        && device_id == 0 && reason@ == missing_core_text(kind))
                        && final(self).next_id() == old(self).next_id(),
                },
            },
    {
        let kind = match classify_device_type(device_type) {
            Some(k) => k,
            None => return Err(unsupported_type(device_type)),
        };
        match self.find_core(kind) {
            Some(core) => {
                let id = self.next_device_id;
                self.next_device_id = self.next_device_id + 1;
                Ok((id, core))
            },
            None => Err(DeviceError::InitializationFailed { device_id: 0, reason: missing_core_reason(kind) }),
        }
    }
}


/// The prefix of the running cores that a core factory makes.
pub open spec fn factory_prefix(factory_name: Seq<char>) -> Option<Seq<char>> {
    if factory_name == "Software Mining Core"@ {
        Some("cpu-btc"@)
    } else if factory_name == "Maijie L7 Core"@ {
        Some("maijie-l7"@)
    } else {
        None
    }
}

/// The running core that the factory `factory_name` made: the first of
/// `active` whose identifier starts with the factory's prefix. An unknown
/// factory, or one with no running core, is an initialization failure.
pub fn core_for_factory(active: &Vec<String>, factory_name: &str) -> (r: Result<String, DeviceError>)
    ensures
        match factory_prefix(factory_name@) {
            None => r matches Err(e) && (e matches DeviceError::InitializationFailed { device_id, reason }
                && device_id == 0 && reason@ == "未知的核心工厂: "@ + factory_name@),
            Some(prefix) => match r {
                Ok(id) => exists|i: int| 0 <= i < active@.len() && active@[i]@ == id@
                    && seq_starts_with(id@, prefix)
                    && forall|j: int| 0 <= j < i ==> !seq_starts_with(#[trigger] active@[j]@, prefix),
                Err(e) => (forall|j: int| 0 <= j < active@.len() ==> !seq_starts_with(#[trigger] active@[j]@, prefix))
                    && (e matches DeviceError::InitializationFailed { device_id, reason } && device_id == 0
                    && reason@ == "未找到工厂 "@ + factory_name@ + " 对应的活跃核心实例"@),
            },
        },
{
    let prefix = if str_equal(factory_name, "Software Mining Core") {
        "cpu-btc"
    } else if str_equal(factory_name, "Maijie L7 Core") {
        "maijie-l7"
    } else {
        let mut reason = String::from_str("未知的核心工厂: ");
        reason.append(factory_name);
        return Err(DeviceError::InitializationFailed { device_id: 0, reason });
    };
    let mut i: usize = 0;
    while i < active.len()
        invariant
            i <= active@.len(),
            factory_prefix(factory_name@) == Some(prefix@),
            forall|j: int| 0 <= j < i ==> !seq_starts_with(#[trigger] active@[j]@, prefix@),
        decreases active@.len() - i,
    {
        if starts_with(active[i].as_str(), prefix) {
            return Ok(active[i].clone());
        }
        i = i + 1;
    }
    let mut reason = String::from_str("未找到工厂 ");
    reason.append(factory_name);
    reason.append(" 对应的活跃核心实例");
    Err(DeviceError::InitializationFailed { device_id: 0, reason })
}
} // verus!
