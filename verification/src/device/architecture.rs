//! How many devices each core may drive, how device identifiers are laid
//! out, and the running totals of devices per core.

use vstd::prelude::*;
use crate::config::{CoresConfig, DeviceConfig};
use crate::device::id_range::{exhausted_message, exhausted_text, has_free, is_least_free, take_least_free};
use crate::error::{DeviceError, MiningError};
use crate::logging::formatter::{decimal, push_decimal};
use crate::text::str_equal;

verus! {

/// How device identifiers are laid out.
#[derive(Debug, Clone, Copy, PartialEq, Eq)]
pub enum DeviceIdStrategy {
    /// One run of identifiers, 1 to 10000, for every core.
    Sequential,
    /// A block of identifiers per core type.
    SegmentedByCore,
    /// A block of identifiers per device type.
    SegmentedByDevice,
}

/// How the number of devices of a core is chosen.
#[derive(Debug, Clone, Copy, PartialEq, Eq)]
pub enum ScalingStrategy {
    /// As many as asked, up to the per-core limit.
    Fixed,
    /// As many as asked, kept within a range.
    Dynamic { min_devices: u32, max_devices: u32 },
    /// Scaled by the system load; the target is the bit pattern of a
    /// double-precision percentage.
    Adaptive { target_cpu_usage_bits: u64 },
}

/// Limits on what the devices may use. The CPU share is the bit pattern of
/// a double-precision percentage.
#[derive(Debug, Clone, Copy, PartialEq, Eq)]
pub struct ResourceLimits {
    pub max_memory_mb: u64,
    pub max_cpu_percent_bits: u64,
    pub max_total_devices: u32,
    pub max_devices_per_core: u32,
}

/// The bit pattern of the double-precision value 90.0.
pub const NINETY_PERCENT_BITS: u64 = 0x4056_8000_0000_0000;

/// The device layout.
#[derive(Debug, Clone, Copy, PartialEq, Eq)]
pub struct DeviceArchitectureConfig {
    pub max_devices_per_core: u32,
    pub device_id_strategy: DeviceIdStrategy,
    pub scaling_strategy: ScalingStrategy,
    pub resource_limits: ResourceLimits,
}

impl Default for DeviceArchitectureConfig {
    /// Up to 64 devices per core, identifiers by core type, between 1 and 64
    /// devices, 4096 MB, 90% CPU and 128 devices in all.
    fn default() -> (r: Self)
        ensures
            r == (DeviceArchitectureConfig {
                max_devices_per_core: 64,
                device_id_strategy: DeviceIdStrategy::SegmentedByCore,
                scaling_strategy: ScalingStrategy::Dynamic { min_devices: 1, max_devices: 64 },
                resource_limits: ResourceLimits {
                    max_memory_mb: 4096,
                    max_cpu_percent_bits: NINETY_PERCENT_BITS,
                    max_total_devices: 128,
                    max_devices_per_core: 64,
                },
            }),
    {
        DeviceArchitectureConfig {
            max_devices_per_core: 64,
            device_id_strategy: DeviceIdStrategy::SegmentedByCore,
            scaling_strategy: ScalingStrategy::Dynamic { min_devices: 1, max_devices: 64 },
            resource_limits: ResourceLimits {
                max_memory_mb: 4096,
                max_cpu_percent_bits: NINETY_PERCENT_BITS,
                max_total_devices: 128,
                max_devices_per_core: 64,
            },
        }
    }
}

/// The layout that the configuration implies: 64 devices per core when the
/// software core is enabled, 4 otherwise.
pub open spec fn derived_config(enabled_cores: Seq<Seq<char>>) -> DeviceArchitectureConfig {
    let max: u32 = if enabled_cores.contains("software"@) { 64 } else { 4 };
    DeviceArchitectureConfig {
        max_devices_per_core: max,
        device_id_strategy: DeviceIdStrategy::SegmentedByCore,
        scaling_strategy: if max <= 4 {
            ScalingStrategy::Fixed
        } else {
            ScalingStrategy::Dynamic { min_devices: 1, max_devices: max }
        },
        resource_limits: ResourceLimits {
            max_memory_mb: if max > 32 { 8192 } else if max > 16 { 4096 } else { 2048 },
            max_cpu_percent_bits: NINETY_PERCENT_BITS,
            max_total_devices: (max * 2) as u32,
            max_devices_per_core: max,
        },
    }
}

/// The texts of a list of strings.
pub open spec fn name_texts(names: Seq<String>) -> Seq<Seq<char>> {
    names.map_values(|s: String| s@)
}

/// Whether `name` is in the list.
fn list_contains(names: &Vec<String>, name: &str) -> (r: bool)
    ensures
        r == name_texts(names@).contains(name@),
{
    let mut i: usize = 0;
    while i < names.len()
        invariant
            i <= names@.len(),
            forall|j: int| 0 <= j < i ==> (#[trigger] names@[j])@ != name@,
        decreases names@.len() - i,
    {
        if str_equal(names[i].as_str(), name) {
            assert(name_texts(names@)[i as int] == name@);
            return true;
        }
        i = i + 1;
    }
    assert(!name_texts(names@).contains(name@)) by {
        if name_texts(names@).contains(name@) {
            let k = choose|k: int| 0 <= k < name_texts(names@).len() && name_texts(names@)[k] == name@;
            assert(names@[k]@ == name@);
        }
    }
    false
}

/// The layout that the configuration implies.
pub fn derive_architecture_config(
    device_config: &DeviceConfig,
    cores_config: &CoresConfig,
) -> (r: Result<DeviceArchitectureConfig, MiningError>)
    ensures
        r == Ok::<DeviceArchitectureConfig, MiningError>(derived_config(name_texts(cores_config.enabled_cores@))),
{
    let max: u32 = if list_contains(&cores_config.enabled_cores, "software") { 64 } else { 4 };
    let scaling_strategy = if max <= 4 {
        ScalingStrategy::Fixed
    } else {
        ScalingStrategy::Dynamic { min_devices: 1, max_devices: max }
    };
    Ok(DeviceArchitectureConfig {
        max_devices_per_core: max,
        device_id_strategy: DeviceIdStrategy::SegmentedByCore,
        scaling_strategy,
        resource_limits: ResourceLimits {
            max_memory_mb: if max > 32 { 8192 } else if max > 16 { 4096 } else { 2048 },
            max_cpu_percent_bits: NINETY_PERCENT_BITS,
            max_total_devices: max * 2,
            max_devices_per_core: max,
        },
    })
}

/// The smaller of two numbers.
pub open spec fn min_u32(a: u32, b: u32) -> u32 {
    if a < b { a } else { b }
}

/// The larger of two numbers.
pub open spec fn max_u32(a: u32, b: u32) -> u32 {
    if a < b { b } else { a }
}

/// The text of a request above the per-core limit.
pub open spec fn per_core_text(requested: u32, limit: u32) -> Seq<char> {
    "Requested device count "@ + decimal(requested as nat) + " exceeds max devices per core "@
        + decimal(limit as nat)
}

/// The text of a request above the system limit.
pub open spec fn system_text(total: u32, limit: u32) -> Seq<char> {
    "Total device count "@ + decimal(total as nat) + " would exceed system limit "@ + decimal(limit as nat)
}

/// The device count granted to a core that asks for `requested` devices
/// while `current` devices run: refused above the per-core limit or when
/// the total would pass the system limit; otherwise fitted to the scaling
/// strategy. Under the adaptive strategy `scaled_for_load` is the request
/// scaled by the system load.
pub fn validate_device_configuration(
    config: &DeviceArchitectureConfig,
    current: u32,
    requested: u32,
    scaled_for_load: u32,
) -> (r: Result<u32, DeviceError>)
    requires
        current + requested <= u32::MAX,
    ensures
        requested > config.max_devices_per_core ==> (r matches Err(e) && (e matches DeviceError::InvalidConfig { reason }
            && reason@ == per_core_text(requested, config.max_devices_per_core))),
        requested <= config.max_devices_per_core && current + requested > config.resource_limits.max_total_devices ==> (
            r matches Err(e) && (e matches DeviceError::InvalidConfig { reason }
            && reason@ == system_text((current + requested) as u32, config.resource_limits.max_total_devices))),
        requested <= config.max_devices_per_core && current + requested <= config.resource_limits.max_total_devices ==>
            r == Ok::<u32, DeviceError>(match config.scaling_strategy {
                ScalingStrategy::Fixed => min_u32(requested, config.max_devices_per_core),
                ScalingStrategy::Dynamic { min_devices, max_devices } => max_u32(
                    min_devices,
                    min_u32(requested, max_devices),
                ),
                ScalingStrategy::Adaptive { .. } => max_u32(1, min_u32(scaled_for_load, config.max_devices_per_core)),
            }),
{
    if requested > config.max_devices_per_core {
        let mut reason = String::from_str("Requested device count ");
        push_decimal(&mut reason, requested as u64);
        reason.append(" exceeds max devices per core ");
        push_decimal(&mut reason, config.max_devices_per_core as u64);
        return Err(DeviceError::InvalidConfig { reason });
    }
    let total = current + requested;
    if total > config.resource_limits.max_total_devices {
        let mut reason = String::from_str("Total device count ");
        push_decimal(&mut reason, total as u64);
        reason.append(" would exceed system limit ");
        push_decimal(&mut reason, config.resource_limits.max_total_devices as u64);
        return Err(DeviceError::InvalidConfig { reason });
    }
    let adjusted = match config.scaling_strategy {
        ScalingStrategy::Fixed => if requested < config.max_devices_per_core {
            requested
        } else {
            config.max_devices_per_core
        },
        ScalingStrategy::Dynamic { min_devices, max_devices } => {
            let capped = if requested < max_devices { requested } else { max_devices };
            if min_devices < capped { capped } else { min_devices }
        },
        ScalingStrategy::Adaptive { .. } => {
            let capped = if scaled_for_load < config.max_devices_per_core {
                scaled_for_load
            } else {
                config.max_devices_per_core
            };
            if 1 < capped { capped } else { 1 }
        },
    };
    Ok(adjusted)
}

/// The identifier block of a core type under a layout; unknown types take
/// 1000 to 1999.
pub open spec fn strategy_range(strategy: DeviceIdStrategy, core_type: Seq<char>) -> (u32, u32) {
    match strategy {
        DeviceIdStrategy::Sequential => (1, 10000),
        DeviceIdStrategy::SegmentedByCore => if core_type == "software"@ || core_type == "cpu-btc"@ {
            (1000, 1999)
        } else if core_type == "asic"@ || core_type == "maijie-l7"@ {
            (2000, 2999)
        } else {
            (1000, 1999)
        },
        DeviceIdStrategy::SegmentedByDevice => if core_type == "cpu"@ {
            (1000, 1499)
        } else if core_type == "asic"@ {
            (2000, 2499)
        } else if core_type == "fpga"@ {
            (3000, 3499)
        } else {
            (1000, 1999)
        },
    }
}

/// The identifier block of a core type under a layout.
pub fn id_range_for(strategy: DeviceIdStrategy, core_type: &str) -> (r: (u32, u32))
    ensures
        r == strategy_range(strategy, core_type@),
{
    match strategy {
        DeviceIdStrategy::Sequential => (1, 10000),
        DeviceIdStrategy::SegmentedByCore => if str_equal(core_type, "software") || str_equal(core_type, "cpu-btc") {
            (1000, 1999)
        } else if str_equal(core_type, "asic") || str_equal(core_type, "maijie-l7") {
            (2000, 2999)
        } else {
            (1000, 1999)
        },
        DeviceIdStrategy::SegmentedByDevice => if str_equal(core_type, "cpu") {
            (1000, 1499)
        } else if str_equal(core_type, "asic") {
            (2000, 2499)
        } else if str_equal(core_type, "fpga") {
            (3000, 3499)
        } else {
            (1000, 1999)
        },
    }
}

/// Hands out device identifiers under a layout: the smallest free one of the
/// block of the asking core type.
pub struct DeviceIdAllocator {
    allocated_ids: std::collections::HashSet<u32>,
    strategy: DeviceIdStrategy,
}

impl DeviceIdAllocator {
    /// The identifiers handed out and not yet given back.
    pub closed spec fn allocated(&self) -> Set<u32> {
        self.allocated_ids@
    }

    /// The layout followed.
    pub closed spec fn strategy(&self) -> DeviceIdStrategy {
        self.strategy
    }

    /// An allocator with nothing handed out.
    pub fn new(strategy: DeviceIdStrategy) -> (r: Self)
        ensures
            r.allocated() == Set::<u32>::empty(),
            r.strategy() == strategy,
    {
        DeviceIdAllocator { allocated_ids: std::collections::HashSet::new(), strategy }
    }

    /// Hands out the smallest free identifier of the block of `core_type`;
    /// fails when the block is exhausted.
    pub fn allocate_id(&mut self, core_type: &str) -> (r: Result<u32, DeviceError>)
        ensures
            final(self).strategy() == old(self).strategy(),
            ({
                let (start, end) = strategy_range(old(self).strategy(), core_type@);
                &&& has_free(old(self).allocated(), start, end) ==> (r matches Ok(x)
                    && is_least_free(old(self).allocated(), start, end, x)
                    && final(self).allocated() == old(self).allocated().insert(x))
                &&& !has_free(old(self).allocated(), start, end) ==> (r matches Err(e)
                    && (e matches DeviceError::InitializationFailed { device_id, reason } && device_id == 0
                    && reason@ == exhausted_text(start, end, core_type@))
                    && final(self).allocated() == old(self).allocated())
            }),
    {
        let (start, end) = id_range_for(self.strategy, core_type);
        match take_least_free(&mut self.allocated_ids, start, end) {
            Some(id) => Ok(id),
            None => Err(DeviceError::InitializationFailed { device_id: 0, reason: exhausted_message(start, end, core_type) }),
        }
    }

    /// Gives `device_id` back.
    pub fn deallocate_id(&mut self, device_id: u32)
        ensures
            final(self).allocated() == old(self).allocated().remove(device_id),
            final(self).strategy() == old(self).strategy(),
    {
        broadcast use vstd::std_specs::hash::group_hash_axioms;
        self.allocated_ids.remove(&device_id);
    }
}


/// The map that a list of named counts stands for: a later entry of a
/// name overrides an earlier one.
pub open spec fn table_map(entries: Seq<(String, u32)>) -> Map<Seq<char>, u32>
    decreases entries.len(),
{
    if entries.len() == 0 {
        Map::empty()
    } else {
        table_map(entries.drop_last()).insert(entries.last().0@, entries.last().1)
    }
}

/// The entries of a list whose name is not `name`, in order.
pub open spec fn without_name(entries: Seq<(String, u32)>, name: Seq<char>) -> Seq<(String, u32)>
    decreases entries.len(),
{
    if entries.len() == 0 {
        Seq::empty()
    } else if entries.last().0@ == name {
        without_name(entries.drop_last(), name)
    } else {
        without_name(entries.drop_last(), name).push(entries.last())
    }
}

/// Dropping the entries of a name drops the name from the map.
proof fn lemma_without_name(entries: Seq<(String, u32)>, name: Seq<char>)
    ensures
        table_map(without_name(entries, name)) == table_map(entries).remove(name),
    decreases entries.len(),
{
    if entries.len() > 0 {
        lemma_without_name(entries.drop_last(), name);
        let x = entries.last();
        if x.0@ == name {
            assert(table_map(entries).remove(name) =~= table_map(entries.drop_last()).remove(name));
        } else {
            let w = without_name(entries.drop_last(), name);
            assert(w.push(x).drop_last() =~= w);
            assert(table_map(w.push(x)) =~= table_map(entries).remove(name));
        }
    } else {
        assert(table_map(entries).remove(name) =~= Map::empty());
    }
}

/// Counts kept per name.
pub struct CountTable {
    entries: Vec<(String, u32)>,
}

impl CountTable {
    /// The count of each name.
    pub closed spec fn view_map(&self) -> Map<Seq<char>, u32> {
        table_map(self.entries@)
    }

    /// The entries, in the order they were last set.
    pub closed spec fn entries(&self) -> Seq<(String, u32)> {
        self.entries@
    }

    /// A table with no name.
    pub fn new() -> (r: Self)
        ensures
            r.view_map() == Map::<Seq<char>, u32>::empty(),
    {
        CountTable { entries: Vec::new() }
    }

    /// Drops `name`.
    pub fn remove(&mut self, name: &str)
        ensures
            final(self).view_map() == old(self).view_map().remove(name@),
    {
        let mut kept: Vec<(String, u32)> = Vec::new();
        let mut i: usize = 0;
        while i < self.entries.len()
            invariant
                self.entries == old(self).entries,
                i <= self.entries@.len(),
                kept@ == without_name(self.entries@.subrange(0, i as int), name@),
            decreases self.entries@.len() - i,
        {
            let ghost prefix = self.entries@.subrange(0, i as int);
            assert(self.entries@.subrange(0, i + 1).drop_last() =~= prefix);
            if !str_equal(self.entries[i].0.as_str(), name) {
                let entry = (self.entries[i].0.clone(), self.entries[i].1);
                kept.push(entry);
            }
            i = i + 1;
        }
        assert(self.entries@.subrange(0, self.entries@.len() as int) =~= self.entries@);
        proof {
            lemma_without_name(self.entries@, name@);
        }
        self.entries = kept;
    }

    /// Sets the count of `name`.
    pub fn insert(&mut self, name: &str, count: u32)
        ensures
            final(self).view_map() == old(self).view_map().insert(name@, count),
    {
        self.remove(name);
        let ghost before = self.entries@;
        self.entries.push((String::from_str(name), count));
        assert(self.entries@.drop_last() =~= before);
        assert(self.view_map() =~= old(self).view_map().remove(name@).insert(name@, count));
        assert(old(self).view_map().remove(name@).insert(name@, count) =~= old(self).view_map().insert(name@, count));
    }

    /// The entries as pairs of name and count.
    pub fn to_vec(&self) -> (r: Vec<(String, u32)>)
        ensures
            table_map(r@) == self.view_map(),
    {
        let mut r: Vec<(String, u32)> = Vec::new();
        let mut i: usize = 0;
        while i < self.entries.len()
            invariant
                i <= self.entries@.len(),
                table_map(r@) == table_map(self.entries@.subrange(0, i as int)),
                r@.len() == i,
                forall|j: int| 0 <= j < i ==> (#[trigger] r@[j]).0@ == self.entries@[j].0@ && r@[j].1 == self.entries@[j].1,
            decreases self.entries@.len() - i,
        {
            let ghost before = r@;
            r.push((self.entries[i].0.clone(), self.entries[i].1));
            assert(r@.drop_last() =~= before);
            assert(self.entries@.subrange(0, i + 1).drop_last() =~= self.entries@.subrange(0, i as int));
            i = i + 1;
        }
        assert(self.entries@.subrange(0, self.entries@.len() as int) =~= self.entries@);
        r
    }
}

/// A snapshot of the device layout and its use.
#[derive(Debug, Clone)]
pub struct ArchitectureStats {
    pub total_devices: u32,
    /// Devices per core name.
    pub devices_per_core: Vec<(String, u32)>,
    pub memory_usage_mb: u64,
    /// The bit pattern of a double-precision percentage.
    pub cpu_usage_percent_bits: u64,
    pub max_devices_per_core: u32,
    pub scaling_strategy: ScalingStrategy,
}

/// The identifiers of `[start, end]`.
pub open spec fn range_set(start: u32, end: u32) -> Set<u32> {
    Set::new(|x: u32| start <= x <= end)
}

/// The set of the identifiers in a list.
pub open spec fn id_set(ids: Seq<u32>) -> Set<u32> {
    ids.to_set()
}

/// `ids` are, in order, the identifiers that repeated least-free
/// allocation in `[start, end]` hands out after `taken`.
pub open spec fn least_free_run(taken: Set<u32>, start: u32, end: u32, ids: Seq<u32>) -> bool {
    forall|i: int| 0 <= i < ids.len() ==> is_least_free(
        taken.union(ids.subrange(0, i).to_set()),
        start,
        end,
        #[trigger] ids[i],
    )
}

/// The set of a list grows by the item pushed.
proof fn lemma_push_to_set(ids: Seq<u32>, x: u32)
    ensures
        ids.push(x).to_set() == ids.to_set().insert(x),
{
    let p = ids.push(x);
    assert forall|y: u32| p.to_set().contains(y) implies ids.to_set().insert(x).contains(y) by {
        let k = choose|k: int| 0 <= k < p.len() && p[k] == y;
        if k < ids.len() {
            assert(ids[k] == y);
        }
    }
    assert forall|y: u32| ids.to_set().insert(x).contains(y) implies p.to_set().contains(y) by {
        if y == x {
            assert(p[ids.len() as int] == y);
        } else {
            let k = choose|k: int| 0 <= k < ids.len() && ids[k] == y;
            assert(p[k] == y);
        }
    }
    assert(p.to_set() =~= ids.to_set().insert(x));
}

/// The device layout of the running miner and the devices each core was
/// given.
pub struct UnifiedDeviceArchitecture {
    config: DeviceArchitectureConfig,
    core_device_counts: CountTable,
    device_id_allocator: DeviceIdAllocator,
    current_device_count: u32,
    current_memory_mb: u64,
    current_cpu_percent_bits: u64,
}

impl UnifiedDeviceArchitecture {
    /// The layout.
    pub closed spec fn config(&self) -> DeviceArchitectureConfig {
        self.config
    }

    /// The identifiers handed out.
    pub closed spec fn allocated(&self) -> Set<u32> {
        self.device_id_allocator.allocated()
    }

    /// The devices given to each core.
    pub closed spec fn core_counts(&self) -> Map<Seq<char>, u32> {
        self.core_device_counts.view_map()
    }

    /// The number of devices running.
    pub closed spec fn device_count(&self) -> u32 {
        self.current_device_count
    }

    /// The memory use last recorded, in megabytes.
    pub closed spec fn memory_mb(&self) -> u64 {
        self.current_memory_mb
    }

    /// The CPU share last recorded, as the bit pattern of a double-precision
    /// percentage.
    pub closed spec fn cpu_percent_bits(&self) -> u64 {
        self.current_cpu_percent_bits
    }

    /// The allocator follows the layout.
    pub closed spec fn well_formed(&self) -> bool {
        self.device_id_allocator.strategy() == self.config.device_id_strategy
    }

    /// A layout with no device yet.
    pub fn new(config: DeviceArchitectureConfig) -> (r: Self)
        ensures
            r.well_formed(),
            r.config() == config,
            r.allocated() == Set::<u32>::empty(),
            r.core_counts() == Map::<Seq<char>, u32>::empty(),
            r.device_count() == 0,
            r.memory_mb() == 0,
            r.cpu_percent_bits() == 0,
    {
        UnifiedDeviceArchitecture {
            config,
            core_device_counts: CountTable::new(),
            device_id_allocator: DeviceIdAllocator::new(config.device_id_strategy),
            current_device_count: 0,
            current_memory_mb: 0,
            current_cpu_percent_bits: 0,
        }
    }

    /// Grants the device count asked by a core while the current devices
    /// run.
    pub fn validate_request(&self, requested: u32, scaled_for_load: u32) -> (r: Result<u32, DeviceError>)
        requires
            self.device_count() + requested <= u32::MAX,
        ensures
            ({
                let c = self.config();
                &&& requested > c.max_devices_per_core ==> (r matches Err(e) && (e matches DeviceError::InvalidConfig { reason }
                    && reason@ == per_core_text(requested, c.max_devices_per_core)))
                &&& requested <= c.max_devices_per_core && self.device_count() + requested > c.resource_limits.max_total_devices
                    ==> (r matches Err(e) && (e matches DeviceError::InvalidConfig { reason }
                    && reason@ == system_text((self.device_count() + requested) as u32, c.resource_limits.max_total_devices)))
                &&& requested <= c.max_devices_per_core && self.device_count() + requested <= c.resource_limits.max_total_devices ==>
                    r == Ok::<u32, DeviceError>(match c.scaling_strategy {
                        ScalingStrategy::Fixed => min_u32(requested, c.max_devices_per_core),
                        ScalingStrategy::Dynamic { min_devices, max_devices } => max_u32(min_devices, min_u32(requested, max_devices)),
                        ScalingStrategy::Adaptive { .. } => max_u32(1, min_u32(scaled_for_load, c.max_devices_per_core)),
                    })
            }),
    {
        validate_device_configuration(&self.config, self.current_device_count, requested, scaled_for_load)
    }

    /// Hands `device_count` identifiers to the core `core_name` of type
    /// `core_type`, the smallest free ones of its block in turn, and counts
    /// its devices. When the block runs out the allocation fails, and the
    /// identifiers taken before stay taken.
    pub fn allocate_device_ids(&mut self, core_name: &str, core_type: &str, device_count: u32) -> (r: Result<Vec<u32>, DeviceError>)
        requires
            old(self).well_formed(),
            old(self).device_count() + device_count <= u32::MAX,
        ensures
            final(self).well_formed(),
            final(self).config() == old(self).config(),
            ({
                let (start, end) = strategy_range(old(self).config().device_id_strategy, core_type@);
                match r {
                    Ok(ids) => ids@.len() == device_count
                        && least_free_run(old(self).allocated(), start, end, ids@)
                        && final(self).allocated() == old(self).allocated().union(id_set(ids@))
                        && final(self).core_counts() == old(self).core_counts().insert(core_name@, device_count)
                        && final(self).device_count() == old(self).device_count() + device_count,
                    Err(e) => (e matches DeviceError::InitializationFailed { device_id, reason } && device_id == 0
                        && reason@ == exhausted_text(start, end, core_type@))
                        && final(self).allocated() == old(self).allocated().union(range_set(start, end))
                        && final(self).core_counts() == old(self).core_counts()
                        && final(self).device_count() == old(self).device_count(),
                }
            }),
    {
        let ghost start = strategy_range(self.config.device_id_strategy, core_type@).0;
        let ghost end = strategy_range(self.config.device_id_strategy, core_type@).1;
        let mut ids: Vec<u32> = Vec::new();
        let mut i: u32 = 0;
        while i < device_count
            invariant
                self.config == old(self).config,
                self.core_device_counts == old(self).core_device_counts,
                self.current_device_count == old(self).current_device_count,
                self.device_id_allocator.strategy() == self.config.device_id_strategy,
                (start, end) == strategy_range(self.config.device_id_strategy, core_type@),
                i <= device_count,
                ids@.len() == i,
                least_free_run(old(self).allocated(), start, end, ids@),
                self.allocated() == old(self).allocated().union(id_set(ids@)),
                forall|k: int| 0 <= k < ids@.len() ==> start <= #[trigger] ids@[k] <= end,
            decreases device_count - i,
        {
            let ghost before = ids@;
            match self.device_id_allocator.allocate_id(core_type) {
                Ok(id) => {
                    ids.push(id);
                    assert(ids@.subrange(0, i as int) =~= before);
                    proof {
                        lemma_push_to_set(before, id);
                    }
                    assert(least_free_run(old(self).allocated(), start, end, ids@)) by {
                        assert forall|k: int| 0 <= k < ids@.len() implies is_least_free(
                            old(self).allocated().union(ids@.subrange(0, k).to_set()),
                            start,
                            end,
                            #[trigger] ids@[k],
                        ) by {
                            if k < i {
                                assert(ids@.subrange(0, k) =~= before.subrange(0, k));
                                assert(before[k] == ids@[k]);
                            }
                        }
                    }
                    assert(self.allocated() =~= old(self).allocated().union(id_set(ids@)));
                },
                Err(e) => {
                    assert(self.allocated() =~= old(self).allocated().union(range_set(start, end))) by {
                        assert forall|x: u32| start <= x <= end implies self.allocated().contains(x) by {
                            if !self.allocated().contains(x) {
                                assert(has_free(self.allocated(), start, end));
                            }
                        }
                        assert forall|x: u32| #[trigger] id_set(ids@).contains(x) implies range_set(start, end).contains(x) by {
                            let k = choose|k: int| 0 <= k < ids@.len() && ids@[k] == x;
                        }
                    }
                    return Err(e);
                },
            }
            i = i + 1;
        }
        self.core_device_counts.insert(core_name, device_count);
        self.current_device_count = self.current_device_count + device_count;
        Ok(ids)
    }

    /// Takes back the identifiers `device_ids` of the core `core_name` and
    /// forgets its count; the running total drops by the number of
    /// identifiers, not below zero.
    pub fn deallocate_device_ids(&mut self, core_name: &str, device_ids: &[u32]) -> (r: Result<(), DeviceError>)
        requires
            old(self).well_formed(),
        ensures
            r is Ok,
            final(self).well_formed(),
            final(self).config() == old(self).config(),
            final(self).allocated() == old(self).allocated().difference(device_ids@.to_set()),
            final(self).core_counts() == old(self).core_counts().remove(core_name@),
            final(self).device_count() == (if old(self).device_count() >= (#[verifier::truncate] (device_ids@.len() as u32)) {
                old(self).device_count() - (#[verifier::truncate] (device_ids@.len() as u32))
            } else {
                0
            }),
    {
        let mut i: usize = 0;
        while i < device_ids.len()
            invariant
                self.config == old(self).config,
                self.core_device_counts == old(self).core_device_counts,
                self.current_device_count == old(self).current_device_count,
                self.device_id_allocator.strategy() == self.config.device_id_strategy,
                i <= device_ids@.len(),
                self.allocated() == old(self).allocated().difference(device_ids@.subrange(0, i as int).to_set()),
            decreases device_ids@.len() - i,
        {
            let ghost before = self.allocated();
            self.device_id_allocator.deallocate_id(device_ids[i]);
            assert(device_ids@.subrange(0, i + 1) =~= device_ids@.subrange(0, i as int).push(device_ids@[i as int]));
            proof {
                lemma_push_to_set(device_ids@.subrange(0, i as int), device_ids@[i as int]);
            }
            assert(self.allocated() =~= old(self).allocated().difference(device_ids@.subrange(0, i + 1).to_set()));
            i = i + 1;
        }
        assert(device_ids@.subrange(0, device_ids@.len() as int) =~= device_ids@);
        self.core_device_counts.remove(core_name);
        #[verifier::truncate]
        let released = device_ids.len() as u32;
        self.current_device_count = if self.current_device_count >= released {
            self.current_device_count - released
        } else {
            0
        };
        Ok(())
    }

    /// Records the memory and CPU the miner uses; the CPU share is the bit
    /// pattern of a double-precision percentage.
    pub fn update_resource_usage(&mut self, memory_mb: u64, cpu_percent_bits: u64)
        ensures
            final(self).config() == old(self).config(),
            final(self).allocated() == old(self).allocated(),
            final(self).core_counts() == old(self).core_counts(),
            final(self).device_count() == old(self).device_count(),
            final(self).well_formed() == old(self).well_formed(),
            final(self).memory_mb() == memory_mb,
            final(self).cpu_percent_bits() == cpu_percent_bits,
    {
        self.current_memory_mb = memory_mb;
        self.current_cpu_percent_bits = cpu_percent_bits;
    }

    /// A snapshot of the layout and its use.
    pub fn get_architecture_stats(&self) -> (r: ArchitectureStats)
        ensures
            r.total_devices == self.device_count(),
            table_map(r.devices_per_core@) == self.core_counts(),
            r.max_devices_per_core == self.config().max_devices_per_core,
            r.scaling_strategy == self.config().scaling_strategy,
            r.memory_usage_mb == self.memory_mb(),
            r.cpu_usage_percent_bits == self.cpu_percent_bits(),
    {
        ArchitectureStats {
            total_devices: self.current_device_count,
            devices_per_core: self.core_device_counts.to_vec(),
            memory_usage_mb: self.current_memory_mb,
            cpu_usage_percent_bits: self.current_cpu_percent_bits,
            max_devices_per_core: self.config.max_devices_per_core,
            scaling_strategy: self.config.scaling_strategy,
        }
    }
}

/// Forgetting a core whose count was just set, and that had none before,
/// leaves the counts as they were.
pub proof fn law_remove_undoes_insert(counts: Map<Seq<char>, u32>, name: Seq<char>, count: u32)
    requires
        !counts.dom().contains(name),
    ensures
        counts.insert(name, count).remove(name) == counts,
{
    assert(counts.insert(name, count).remove(name) =~= counts);
}
} // verus!
