//! Decisions of the mining manager: which core mines, in which order work
//! is offered to the cores, and the manager's settings and events.

use vstd::prelude::*;
use std::time::Duration;
use crate::clock::{duration_from_secs, duration_of_secs};
use crate::config::Config;
use crate::error::MiningError;
use crate::mining::{MiningState, WorkDistributionStrategy};
use crate::text::{contains, seq_contains, str_equal};

verus! {

/// The rank of a core when one core is chosen to mine: ASIC first, then
/// GPU, then CPU, then anything else.
pub open spec fn mining_rank(id: Seq<char>) -> u8 {
    if seq_contains(id, "asic"@) || seq_contains(id, "maijie"@) || seq_contains(id, "l7"@) {
        1
    } else if seq_contains(id, "gpu"@) {
        2
    } else if seq_contains(id, "cpu"@) || seq_contains(id, "software"@) {
        3
    } else {
        4
    }
}

/// The rank of a core when work is offered: GPU first, then ASIC, then CPU,
/// then anything else.
pub open spec fn dispatch_rank(id: Seq<char>) -> u8 {
    if seq_contains(id, "gpu"@) {
        1
    } else if seq_contains(id, "asic"@) || seq_contains(id, "maijie"@) {
        2
    } else if seq_contains(id, "cpu"@) || seq_contains(id, "software"@) {
        3
    } else {
        4
    }
}

/// The rank of a core when one core is chosen to mine.
pub fn core_priority(core_id: &str) -> (r: u8)
    ensures
        r == mining_rank(core_id@),
{
    if contains(core_id, "asic") || contains(core_id, "maijie") || contains(core_id, "l7") {
        1
    } else if contains(core_id, "gpu") {
        2
    } else if contains(core_id, "cpu") || contains(core_id, "software") {
        3
    } else {
        4
    }
}

/// The rank of a core when work is offered.
pub fn dispatch_priority(core_id: &str) -> (r: u8)
    ensures
        r == dispatch_rank(core_id@),
{
    if contains(core_id, "gpu") {
        1
    } else if contains(core_id, "asic") || contains(core_id, "maijie") {
        2
    } else if contains(core_id, "cpu") || contains(core_id, "software") {
        3
    } else {
        4
    }
}

/// The texts of a list of strings.
pub open spec fn core_texts(ids: Seq<String>) -> Seq<Seq<char>> {
    ids.map_values(|s: String| s@)
}

/// Chooses the core to mine with: the first of the best rank. With no core
/// there is nothing to choose.
pub fn select_optimal_core(active_cores: &Vec<String>) -> (r: Result<String, MiningError>)
    ensures
        active_cores@.len() == 0 ==> (r matches Err(e) && (e matches MiningError::CoreError(m)
            && m@ == "No cores available for selection"@)),
        active_cores@.len() > 0 ==> (r matches Ok(id) && exists|i: int|
            0 <= i < active_cores@.len() && active_cores@[i]@ == id@
            && (forall|j: int| 0 <= j < active_cores@.len() ==> mining_rank(active_cores@[i]@) <= mining_rank(#[trigger] active_cores@[j]@))
            && (forall|j: int| 0 <= j < i ==> mining_rank(active_cores@[i]@) < mining_rank(#[trigger] active_cores@[j]@))),
{
    if active_cores.len() == 0 {
        return Err(MiningError::CoreError(String::from_str("No cores available for selection")));
    }
    let mut best: usize = 0;
    let mut best_rank = core_priority(active_cores[0].as_str());
    let mut i: usize = 1;
    while i < active_cores.len()
        invariant
            0 < active_cores@.len(),
            1 <= i <= active_cores@.len(),
            best < i,
            best_rank == mining_rank(active_cores@[best as int]@),
            forall|j: int| 0 <= j < i ==> best_rank <= mining_rank(#[trigger] active_cores@[j]@),
            forall|j: int| 0 <= j < best ==> best_rank < mining_rank(#[trigger] active_cores@[j]@),
        decreases active_cores@.len() - i,
    {
        let rank = core_priority(active_cores[i].as_str());
        if rank < best_rank {
            best = i;
            best_rank = rank;
        }
        i = i + 1;
    }
    Ok(active_cores[best].clone())
}

/// The kind of core a compiled factory makes under `config`: the software
/// core, the GPU core, and the Maijie L7 core when the configuration enables
/// it; none for any other factory.
pub open spec fn factory_core_kind(factory_name: Seq<char>, config: Config) -> Option<Seq<char>> {
    if factory_name == "Software Mining Core"@ {
        Some("cpu-btc"@)
    } else if factory_name == "GPU Mining Core Factory"@ {
        Some("gpu-btc"@)
    } else if factory_name == "Maijie L7 Core"@ {
        match config.cores.maijie_l7 {
            Some(m) => if m.enabled { Some("maijie-l7"@) } else { None },
            None => None,
        }
    } else {
        None
    }
}

/// The kind of core the factory `factory_name` makes under `config`, if it
/// makes one.
pub fn core_kind_for_factory(factory_name: &str, config: &Config) -> (r: Option<&'static str>)
    ensures
        match factory_core_kind(factory_name@, *config) {
            Some(k) => r matches Some(t) && t@ == k,
            None => r is None,
        },
{
    if str_equal(factory_name, "Software Mining Core") {
        Some("cpu-btc")
    } else if str_equal(factory_name, "GPU Mining Core Factory") {
        Some("gpu-btc")
    } else if str_equal(factory_name, "Maijie L7 Core") {
        match &config.cores.maijie_l7 {
            Some(m) => if m.enabled { Some("maijie-l7") } else { None },
            None => None,
        }
    } else {
        None
    }
}

/// The identifiers of `ids` other than `sel`, in order.
pub open spec fn others(ids: Seq<Seq<char>>, sel: Seq<char>) -> Seq<Seq<char>>
    decreases ids.len(),
{
    if ids.len() == 0 {
        ids
    } else if ids.last() != sel {
        others(ids.drop_last(), sel).push(ids.last())
    } else {
        others(ids.drop_last(), sel)
    }
}

/// The cores removed after a start are exactly the created ones other than
/// the started core: it is never among them, and no other one is missed.
pub proof fn law_start_plan_removes_all_but_selected(ids: Seq<Seq<char>>, sel: Seq<char>)
    ensures
        forall|k: int| 0 <= k < others(ids, sel).len() ==> #[trigger] others(ids, sel)[k] != sel
            && ids.contains(others(ids, sel)[k]),
        forall|k: int| 0 <= k < ids.len() && #[trigger] ids[k] != sel ==> others(ids, sel).contains(ids[k]),
    decreases ids.len(),
{
    if ids.len() > 0 {
        let init = ids.drop_last();
        law_start_plan_removes_all_but_selected(init, sel);
        let o = others(ids, sel);
        let oi = others(init, sel);
        assert forall|k: int| 0 <= k < o.len() implies #[trigger] o[k] != sel && ids.contains(o[k]) by {
            if ids.last() != sel && k == o.len() - 1 {
                assert(o[k] == ids.last());
                assert(ids[ids.len() - 1] == ids.last());
            } else {
                assert(o[k] == oi[k]);
                assert(oi[k] != sel);
                let j = choose|j: int| 0 <= j < init.len() && init[j] == oi[k];
                assert(ids[j] == init[j]);
            }
        }
        assert forall|k: int| 0 <= k < ids.len() && #[trigger] ids[k] != sel implies o.contains(ids[k]) by {
            if k < ids.len() - 1 {
                assert(ids[k] == init[k]);
                assert(oi.contains(init[k]));
                let j = choose|j: int| 0 <= j < oi.len() && oi[j] == init[k];
                if ids.last() != sel {
                    assert(o[j] == oi[j]);
                } else {
                    assert(o == oi);
                }
            } else {
                assert(o[o.len() - 1] == ids.last());
            }
        }
    }
}

/// Which of the cores just created to start, and which to stop and remove:
/// the best core by rank is started, every other one removed, in order.
/// With no core created there is nothing to start.
pub fn core_start_plan(created: &Vec<String>) -> (r: Result<(String, Vec<String>), MiningError>)
    ensures
        created@.len() == 0 ==> (r matches Err(e) && (e matches MiningError::CoreError(m)
            && m@ == "No cores available for selection"@)),
        created@.len() > 0 ==> (r matches Ok((sel, removed)) && (exists|i: int|
            0 <= i < created@.len() && created@[i]@ == sel@
            && (forall|j: int| 0 <= j < created@.len() ==> mining_rank(created@[i]@) <= mining_rank(#[trigger] created@[j]@))
            && (forall|j: int| 0 <= j < i ==> mining_rank(created@[i]@) < mining_rank(#[trigger] created@[j]@)))
            && core_texts(removed@) == others(core_texts(created@), sel@)),
{
    let selected = match select_optimal_core(created) {
        Ok(s) => s,
        Err(e) => return Err(e),
    };
    let mut removed: Vec<String> = Vec::new();
    let mut i: usize = 0;
    while i < created.len()
        invariant
            i <= created@.len(),
            core_texts(removed@) == others(core_texts(created@.subrange(0, i as int)), selected@),
        decreases created@.len() - i,
    {
        proof {
            let pre = core_texts(created@.subrange(0, i + 1));
            assert(pre.drop_last() =~= core_texts(created@.subrange(0, i as int)));
            assert(pre.last() == created@[i as int]@);
        }
        if !str_equal(created[i].as_str(), selected.as_str()) {
            let ghost before = removed@;
            removed.push(created[i].clone());
            assert(core_texts(removed@) =~= core_texts(before).push(created@[i as int]@));
        }
        i = i + 1;
    }
    assert(created@.subrange(0, i as int) =~= created@);
    Ok((selected, removed))
}

/// The cores of rank `rank`, in their order.
pub open spec fn of_rank(ids: Seq<Seq<char>>, rank: u8) -> Seq<Seq<char>> {
    ids.filter(|id: Seq<char>| dispatch_rank(id) == rank)
}

/// The order in which work is offered to the cores: by rank, keeping the
/// order of cores of the same rank.
pub open spec fn dispatch_sequence(ids: Seq<Seq<char>>) -> Seq<Seq<char>> {
    of_rank(ids, 1) + of_rank(ids, 2) + of_rank(ids, 3) + of_rank(ids, 4)
}

/// Appends the cores of rank `rank` to `out`, in their order.
fn push_rank(out: &mut Vec<String>, ids: &Vec<String>, rank: u8)
    ensures
        core_texts(final(out)@) == core_texts(old(out)@) + of_rank(core_texts(ids@), rank),
{
    let ghost texts = core_texts(ids@);
    let mut i: usize = 0;
    while i < ids.len()
        invariant
            texts == core_texts(ids@),
            i <= ids@.len(),
            core_texts(out@) == core_texts(old(out)@) + of_rank(texts.subrange(0, i as int), rank),
        decreases ids@.len() - i,
    {
        let ghost before = out@;
        let ghost prefix = texts.subrange(0, i as int);
        assert(texts.subrange(0, i + 1).drop_last() =~= prefix);
        proof {
            reveal(Seq::filter);
        }
        if dispatch_priority(ids[i].as_str()) == rank {
            out.push(ids[i].clone());
            assert(core_texts(out@) =~= core_texts(before).push(texts[i as int]));
        }
        i = i + 1;
    }
    assert(texts.subrange(0, ids@.len() as int) =~= texts);
}

/// The order in which work is offered to the cores: GPU cores first, then
/// ASIC, then CPU, then the rest, each group in its order.
pub fn dispatch_order(active_cores: &Vec<String>) -> (r: Vec<String>)
    ensures
        core_texts(r@) == dispatch_sequence(core_texts(active_cores@)),
{
    let mut r: Vec<String> = Vec::new();
    push_rank(&mut r, active_cores, 1);
    push_rank(&mut r, active_cores, 2);
    push_rank(&mut r, active_cores, 3);
    push_rank(&mut r, active_cores, 4);
    assert(core_texts(Seq::<String>::empty()) =~= Seq::<Seq<char>>::empty());
    r
}

/// The settings of the mining manager; temperatures are bit patterns of
/// single-precision degrees Celsius.
#[derive(Debug, Clone, Copy)]
pub struct MiningConfig {
    pub work_restart_timeout: Duration,
    pub scan_interval: Duration,
    pub work_distribution_strategy: WorkDistributionStrategy,
    pub max_work_queue_size: usize,
    pub max_result_queue_size: usize,
    pub batch_size: usize,
    pub enable_auto_tuning: bool,
    pub target_temperature_bits: u32,
    pub max_temperature_bits: u32,
}

/// The bit pattern of the single-precision value 75.0.
pub const SEVENTY_FIVE_BITS: u32 = 0x4296_0000;

impl Default for MiningConfig {
    /// A minute to restart work, scans every 30 s, load balancing, queues of
    /// 1000, batches of 100, tuning on, 75 °C targeted and 85 °C at most.
    fn default() -> (r: Self)
        ensures
            r.work_restart_timeout == duration_of_secs(60),
            r.scan_interval == duration_of_secs(30),
            r.work_distribution_strategy == WorkDistributionStrategy::LoadBalance,
            r.max_work_queue_size == 1000,
            r.max_result_queue_size == 1000,
            r.batch_size == 100,
            r.enable_auto_tuning,
            r.target_temperature_bits == SEVENTY_FIVE_BITS,
            r.max_temperature_bits == crate::device::DEFAULT_TEMPERATURE_LIMIT_BITS,
    {
        MiningConfig {
            work_restart_timeout: duration_from_secs(60),
            scan_interval: duration_from_secs(30),
            work_distribution_strategy: WorkDistributionStrategy::LoadBalance,
            max_work_queue_size: 1000,
            max_result_queue_size: 1000,
            batch_size: 100,
            enable_auto_tuning: true,
            target_temperature_bits: SEVENTY_FIVE_BITS,
            max_temperature_bits: crate::device::DEFAULT_TEMPERATURE_LIMIT_BITS,
        }
    }
}

impl MiningConfig {
    /// The manager's settings drawn from the configuration: the general
    /// timings, auto detection as tuning and the critical temperature as
    /// the maximum.
    pub fn from_config(config: &Config) -> (r: Self)
        ensures
            r.work_restart_timeout == duration_of_secs(config.general.work_restart_timeout),
            r.scan_interval == duration_of_secs(config.general.scan_time),
            r.work_distribution_strategy == WorkDistributionStrategy::LoadBalance,
            r.max_work_queue_size == 1000,
            r.max_result_queue_size == 1000,
            r.batch_size == 100,
            r.enable_auto_tuning == config.devices.auto_detect,
            r.target_temperature_bits == SEVENTY_FIVE_BITS,
            r.max_temperature_bits == config.monitoring.alert_thresholds.temperature_critical_bits,
    {
        MiningConfig {
            work_restart_timeout: duration_from_secs(config.general.work_restart_timeout),
            scan_interval: duration_from_secs(config.general.scan_time),
            work_distribution_strategy: WorkDistributionStrategy::LoadBalance,
            max_work_queue_size: 1000,
            max_result_queue_size: 1000,
            batch_size: 100,
            enable_auto_tuning: config.devices.auto_detect,
            target_temperature_bits: SEVENTY_FIVE_BITS,
            max_temperature_bits: config.monitoring.alert_thresholds.temperature_critical_bits,
        }
    }
}

/// Something that happened in mining. Times are milliseconds since the Unix
/// epoch; difficulties are bit patterns of double-precision values; work
/// identifiers are 128-bit UUIDs.
#[derive(Debug, Clone)]
pub enum MiningEvent {
    StateChanged { old_state: MiningState, new_state: MiningState, timestamp: u64 },
    WorkReceived { work_id: u128, job_id: String, difficulty_bits: u64, timestamp: u64 },
    ShareSubmitted { work_id: u128, device_id: u32, nonce: u32, difficulty_bits: u64, timestamp: u64 },
    ShareAccepted { work_id: u128, difficulty_bits: u64, timestamp: u64 },
    ShareRejected { work_id: u128, reason: String, timestamp: u64 },
    HardwareError { device_id: u32, error: String, timestamp: u64 },
    DeviceStateChanged { device_id: u32, old_state: String, new_state: String, timestamp: u64 },
    PoolConnectionChanged { pool_id: u32, connected: bool, timestamp: u64 },
}

impl MiningEvent {
    /// When the event happened.
    pub fn timestamp(&self) -> (r: u64)
        ensures
            r == match *self {
                MiningEvent::StateChanged { timestamp, .. } => timestamp,
                MiningEvent::WorkReceived { timestamp, .. } => timestamp,
                MiningEvent::ShareSubmitted { timestamp, .. } => timestamp,
                MiningEvent::ShareAccepted { timestamp, .. } => timestamp,
                MiningEvent::ShareRejected { timestamp, .. } => timestamp,
                MiningEvent::HardwareError { timestamp, .. } => timestamp,
                MiningEvent::DeviceStateChanged { timestamp, .. } => timestamp,
                MiningEvent::PoolConnectionChanged { timestamp, .. } => timestamp,
            },
    {
        match self {
            MiningEvent::StateChanged { timestamp, .. } => *timestamp,
            MiningEvent::WorkReceived { timestamp, .. } => *timestamp,
            MiningEvent::ShareSubmitted { timestamp, .. } => *timestamp,
            MiningEvent::ShareAccepted { timestamp, .. } => *timestamp,
            MiningEvent::ShareRejected { timestamp, .. } => *timestamp,
            MiningEvent::HardwareError { timestamp, .. } => *timestamp,
            MiningEvent::DeviceStateChanged { timestamp, .. } => *timestamp,
            MiningEvent::PoolConnectionChanged { timestamp, .. } => *timestamp,
        }
    }

    /// The name of the kind of event.
    pub fn event_type(&self) -> (r: &'static str)
        ensures
            r@ == match *self {
                MiningEvent::StateChanged { .. } => "state_changed"@,
                MiningEvent::WorkReceived { .. } => "work_received"@,
                MiningEvent::ShareSubmitted { .. } => "share_submitted"@,
                MiningEvent::ShareAccepted { .. } => "share_accepted"@,
                MiningEvent::ShareRejected { .. } => "share_rejected"@,
                MiningEvent::HardwareError { .. } => "hardware_error"@,
                MiningEvent::DeviceStateChanged { .. } => "device_state_changed"@,
                MiningEvent::PoolConnectionChanged { .. } => "pool_connection_changed"@,
            },
    {
        match self {
            MiningEvent::StateChanged { .. } => "state_changed",
            MiningEvent::WorkReceived { .. } => "work_received",
            MiningEvent::ShareSubmitted { .. } => "share_submitted",
            MiningEvent::ShareAccepted { .. } => "share_accepted",
            MiningEvent::ShareRejected { .. } => "share_rejected",
            MiningEvent::HardwareError { .. } => "hardware_error",
            MiningEvent::DeviceStateChanged { .. } => "device_state_changed",
            MiningEvent::PoolConnectionChanged { .. } => "pool_connection_changed",
        }
    }
}


/// Offering work to the cores in dispatch order reaches every running core,
/// each as often as it runs: the order is a rearrangement of the list.
pub proof fn law_dispatch_keeps_every_core(ids: Seq<Seq<char>>)
    ensures
        dispatch_sequence(ids).to_multiset() == ids.to_multiset(),
    decreases ids.len(),
{
    broadcast use vstd::seq_lib::lemma_multiset_commutative, vstd::seq_lib::to_multiset_build,
        vstd::multiset::group_multiset_axioms;
    reveal(Seq::filter);
    if ids.len() == 0 {
        assert(dispatch_sequence(ids) =~= Seq::<Seq<char>>::empty());
        assert(ids =~= Seq::<Seq<char>>::empty());
        assert(dispatch_sequence(ids).to_multiset() =~= ids.to_multiset());
    } else {
        let rest = ids.drop_last();
        let x = ids.last();
        law_dispatch_keeps_every_core(rest);
        assert(ids =~= rest.push(x));
        let a = of_rank(rest, 1);
        let b = of_rank(rest, 2);
        let c = of_rank(rest, 3);
        let d = of_rank(rest, 4);
        let r = dispatch_rank(x);
        assert(1 <= r <= 4);
        let old_ms = a.to_multiset().add(b.to_multiset()).add(c.to_multiset()).add(d.to_multiset());
        assert(dispatch_sequence(rest).to_multiset() =~= old_ms) by {
            assert(dispatch_sequence(rest) == ((a + b) + c) + d);
        }
        assert(of_rank(ids, 1) == (if r == 1 { a.push(x) } else { a }));
        assert(of_rank(ids, 2) == (if r == 2 { b.push(x) } else { b }));
        assert(of_rank(ids, 3) == (if r == 3 { c.push(x) } else { c }));
        assert(of_rank(ids, 4) == (if r == 4 { d.push(x) } else { d }));
        let new_ms = of_rank(ids, 1).to_multiset().add(of_rank(ids, 2).to_multiset()).add(
            of_rank(ids, 3).to_multiset(),
        ).add(of_rank(ids, 4).to_multiset());
        assert(dispatch_sequence(ids).to_multiset() =~= new_ms) by {
            assert(dispatch_sequence(ids) == ((of_rank(ids, 1) + of_rank(ids, 2)) + of_rank(ids, 3)) + of_rank(ids, 4));
        }
        assert(new_ms =~= old_ms.insert(x));
        assert(ids.to_multiset() =~= rest.to_multiset().insert(x));
    }
}

/// The devices a compiled core factory brings, by the factory's name: the
/// software core its configured count (4 unconfigured), the Maijie L7 core
/// one per chain when enabled, the GPU core its configured count (1
/// unconfigured), any other factory one.
pub open spec fn factory_devices(name: Seq<char>, config: Config) -> nat {
    if name == "Software Mining Core"@ {
        match config.cores.cpu_btc {
            Some(c) => c.device_count as nat,
            None => 4,
        }
    } else if name == "Maijie L7 Core"@ {
        match config.cores.maijie_l7 {
            Some(m) => if m.enabled { config.devices.chains@.len() } else { 0 },
            None => 0,
        }
    } else if name == "GPU Mining Core Factory"@ {
        match config.cores.gpu_btc {
            Some(g) => g.device_count as nat,
            None => 1,
        }
    } else {
        1
    }
}

/// The devices the first `n` factories bring together.
pub open spec fn devices_of_factories(names: Seq<Seq<char>>, config: Config, n: nat) -> nat
    decreases n,
{
    if n == 0 || n > names.len() {
        0
    } else {
        devices_of_factories(names, config, (n - 1) as nat) + factory_devices(names[n - 1], config)
    }
}

/// The number of devices reported ready after start: what the compiled
/// factories bring, or four when that is none.
pub fn ready_device_count(factory_names: &Vec<String>, config: &Config) -> (r: u32)
    requires
        devices_of_factories(core_texts(factory_names@), *config, factory_names@.len()) <= u32::MAX,
    ensures
        r == (if devices_of_factories(core_texts(factory_names@), *config, factory_names@.len()) == 0 {
            4
        } else {
            devices_of_factories(core_texts(factory_names@), *config, factory_names@.len())
        }),
{
    let ghost names = core_texts(factory_names@);
    let mut total: u32 = 0;
    let mut i: usize = 0;
    while i < factory_names.len()
        invariant
            names == core_texts(factory_names@),
            i <= factory_names@.len(),
            total == devices_of_factories(names, *config, i as nat),
            devices_of_factories(names, *config, factory_names@.len()) <= u32::MAX,
        decreases factory_names@.len() - i,
    {
        proof {
            lemma_devices_grow(names, *config, (i + 1) as nat, factory_names@.len());
        }
        let name = factory_names[i].as_str();
        let more: u32 = if crate::text::str_equal(name, "Software Mining Core") {
            match &config.cores.cpu_btc {
                Some(c) => c.device_count,
                None => 4,
            }
        } else if crate::text::str_equal(name, "Maijie L7 Core") {
            match &config.cores.maijie_l7 {
                Some(m) => if m.enabled {
                    proof {
                        assert(factory_devices(names[i as int], *config) == config.devices.chains@.len());
                    }
                    config.devices.chains.len() as u32
                } else {
                    0
                },
                None => 0,
            }
        } else if crate::text::str_equal(name, "GPU Mining Core Factory") {
            match &config.cores.gpu_btc {
                Some(g) => g.device_count,
                None => 1,
            }
        } else {
            1
        };
        assert(more == factory_devices(names[i as int], *config));
        total = total + more;
        i = i + 1;
    }
    if total == 0 { 4 } else { total }
}

/// The devices of more factories are never fewer.
proof fn lemma_devices_grow(names: Seq<Seq<char>>, config: Config, m: nat, n: nat)
    requires
        m <= n <= names.len(),
    ensures
        devices_of_factories(names, config, m) <= devices_of_factories(names, config, n),
    decreases n - m,
{
    if m < n {
        lemma_devices_grow(names, config, m, (n - 1) as nat);
    }
}

/// Whether mining runs, and its state, as start and stop move them.
pub struct MiningLifecycle {
    running: bool,
    state: MiningState,
}

impl MiningLifecycle {
    /// Whether mining runs.
    pub closed spec fn is_running(&self) -> bool {
        self.running
    }

    /// The current state.
    pub closed spec fn current(&self) -> MiningState {
        self.state
    }

    /// The lifecycle after a start is begun.
    pub closed spec fn start_begun(self) -> MiningLifecycle {
        if self.running {
            self
        } else {
            MiningLifecycle { running: true, state: MiningState::Starting }
        }
    }

    /// The lifecycle after a start completes.
    pub closed spec fn start_finished(self) -> MiningLifecycle {
        MiningLifecycle { running: self.running, state: MiningState::Running }
    }

    /// The lifecycle after a stop is begun.
    pub closed spec fn stop_begun(self) -> MiningLifecycle {
        if !self.running {
            self
        } else {
            MiningLifecycle { running: false, state: MiningState::Stopping }
        }
    }

    /// The lifecycle after a stop completes.
    pub closed spec fn stop_finished(self) -> MiningLifecycle {
        MiningLifecycle { running: self.running, state: MiningState::Stopped }
    }

    /// Stopped, not running.
    pub fn new() -> (r: Self)
        ensures
            !r.is_running(),
            r.current() == MiningState::Stopped,
    {
        MiningLifecycle { running: false, state: MiningState::Stopped }
    }

    /// The current state.
    pub fn get_state(&self) -> (r: MiningState)
        ensures
            r == self.current(),
    {
        match &self.state {
            MiningState::Stopped => MiningState::Stopped,
            MiningState::Starting => MiningState::Starting,
            MiningState::Running => MiningState::Running,
            MiningState::Stopping => MiningState::Stopping,
            MiningState::Paused => MiningState::Paused,
            MiningState::Error(m) => MiningState::Error(m.clone()),
        }
    }

    /// Begins a start at time `now`: nothing happens while mining runs;
    /// otherwise mining runs, starting, and the change is announced.
    pub fn begin_start(&mut self, now: u64) -> (r: Option<MiningEvent>)
        ensures
            *final(self) == old(self).start_begun(),
            final(self).is_running(),
            old(self).is_running() ==> r is None && final(self).current() == old(self).current(),
            !old(self).is_running() ==> final(self).current() == MiningState::Starting
                && r == Some(MiningEvent::StateChanged {
                    old_state: MiningState::Stopped,
                    new_state: MiningState::Starting,
                    timestamp: now,
                }),
    {
        if self.running {
            return None;
        }
        self.state = MiningState::Starting;
        self.running = true;
        Some(MiningEvent::StateChanged { old_state: MiningState::Stopped, new_state: MiningState::Starting, timestamp: now })
    }

    /// Completes a start at time `now`: mining is running, announced.
    pub fn finish_start(&mut self, now: u64) -> (r: MiningEvent)
        ensures
            *final(self) == old(self).start_finished(),
            final(self).is_running() == old(self).is_running(),
            final(self).current() == MiningState::Running,
            r == (MiningEvent::StateChanged { old_state: MiningState::Starting, new_state: MiningState::Running, timestamp: now }),
    {
        self.state = MiningState::Running;
        MiningEvent::StateChanged { old_state: MiningState::Starting, new_state: MiningState::Running, timestamp: now }
    }

    /// Begins a stop at time `now`: nothing happens unless mining runs;
    /// otherwise mining stops running, stopping, and the change is
    /// announced.
    pub fn begin_stop(&mut self, now: u64) -> (r: Option<MiningEvent>)
        ensures
            *final(self) == old(self).stop_begun(),
            !final(self).is_running(),
            !old(self).is_running() ==> r is None && final(self).current() == old(self).current(),
            old(self).is_running() ==> final(self).current() == MiningState::Stopping
                && r == Some(MiningEvent::StateChanged {
                    old_state: MiningState::Running,
                    new_state: MiningState::Stopping,
                    timestamp: now,
                }),
    {
        if !self.running {
            return None;
        }
        self.state = MiningState::Stopping;
        self.running = false;
        Some(MiningEvent::StateChanged { old_state: MiningState::Running, new_state: MiningState::Stopping, timestamp: now })
    }

    /// Completes a stop at time `now`: mining is stopped, announced.
    pub fn finish_stop(&mut self, now: u64) -> (r: MiningEvent)
        ensures
            *final(self) == old(self).stop_finished(),
            final(self).is_running() == old(self).is_running(),
            final(self).current() == MiningState::Stopped,
            r == (MiningEvent::StateChanged { old_state: MiningState::Stopping, new_state: MiningState::Stopped, timestamp: now }),
    {
        self.state = MiningState::Stopped;
        MiningEvent::StateChanged { old_state: MiningState::Stopping, new_state: MiningState::Stopped, timestamp: now }
    }
}

/// A full start followed by a full stop leaves mining stopped and not
/// running, from any lifecycle, running or not; and a start while
/// running, or a stop while stopped, changes nothing.
pub proof fn law_start_then_stop_stops(s: MiningLifecycle)
    ensures
        !s.start_begun().start_finished().stop_begun().stop_finished().is_running(),
        s.start_begun().start_finished().stop_begun().stop_finished().current() == MiningState::Stopped,
        s.start_begun().start_finished().is_running(),
        s.start_begun().start_finished().current() == MiningState::Running,
        s.is_running() ==> s.start_begun() == s,
        !s.is_running() ==> s.stop_begun() == s,
{
}

/// A core identifier that names an ASIC core.
pub open spec fn names_asic(id: Seq<char>) -> bool {
    seq_contains(id, "asic"@) || seq_contains(id, "maijie"@) || seq_contains(id, "l7"@)
}

/// A core identifier that names a GPU core and no ASIC core.
pub open spec fn names_gpu(id: Seq<char>) -> bool {
    seq_contains(id, "gpu"@) && !names_asic(id)
}

/// A core identifier that names a CPU (software) core and no GPU or ASIC core.
pub open spec fn names_cpu(id: Seq<char>) -> bool {
    (seq_contains(id, "cpu"@) || seq_contains(id, "software"@)) && !seq_contains(id, "gpu"@) && !names_asic(id)
}

/// When one core is chosen to mine, ASIC cores come before GPU cores, GPU
/// cores before CPU cores, and CPU cores before any other kind.
pub proof fn law_mining_rank_asic_gpu_cpu(a: Seq<char>, g: Seq<char>, c: Seq<char>, o: Seq<char>)
    requires
        names_asic(a),
        names_gpu(g),
        names_cpu(c),
        !names_asic(o) && !seq_contains(o, "gpu"@) && !seq_contains(o, "cpu"@) && !seq_contains(o, "software"@),
    ensures
        mining_rank(a) < mining_rank(g),
        mining_rank(g) < mining_rank(c),
        mining_rank(c) < mining_rank(o),
{
}

/// A core of the best rank among `ids` (what `select_optimal_core` returns)
/// is never a CPU core while a GPU or an ASIC core is among them, and never a
/// GPU core while an ASIC core is among them.
pub proof fn law_chosen_core_is_never_outranked(ids: Seq<Seq<char>>, k: int, other: int)
    requires
        0 <= k < ids.len(),
        0 <= other < ids.len(),
        forall|j: int| 0 <= j < ids.len() ==> mining_rank(ids[k]) <= mining_rank(#[trigger] ids[j]),
    ensures
        names_cpu(ids[k]) ==> !names_gpu(ids[other]) && !names_asic(ids[other]),
        names_gpu(ids[k]) ==> !names_asic(ids[other]),
{
    assert(mining_rank(ids[k]) <= mining_rank(ids[other]));
}


/// When work is offered, GPU cores come first, then ASIC cores, then CPU
/// cores, then any other kind.
pub proof fn law_dispatch_rank_gpu_asic_cpu(g: Seq<char>, a: Seq<char>, c: Seq<char>, o: Seq<char>)
    requires
        seq_contains(g, "gpu"@),
        (seq_contains(a, "asic"@) || seq_contains(a, "maijie"@)) && !seq_contains(a, "gpu"@),
        names_cpu(c),
        !seq_contains(o, "gpu"@) && !seq_contains(o, "asic"@) && !seq_contains(o, "maijie"@)
            && !seq_contains(o, "cpu"@) && !seq_contains(o, "software"@),
    ensures
        dispatch_rank(g) < dispatch_rank(a),
        dispatch_rank(a) < dispatch_rank(c),
        dispatch_rank(c) < dispatch_rank(o),
{
}

} // verus!
