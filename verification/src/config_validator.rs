//! Checks of a configuration file against the settings the miner reads:
//! settings that nothing reads, settings in the wrong section and pool
//! fields under the wrong name.

use vstd::prelude::*;
use vstd::string::StrSliceExecFns;
use crate::logging::LogLevel;
use crate::logging::formatter::{decimal, push_decimal};
use crate::text::{seq_starts_with, starts_with, str_equal};

verus! {

/// A parsed configuration document, as far as the checks read it: tables
/// with their keys in the order serde_json hands them out, arrays, and other
/// values.
pub enum ConfigValue {
    Table(Vec<(String, ConfigValue)>),
    Array(Vec<ConfigValue>),
    Scalar,
}

/// A problem found in a configuration.
#[derive(Debug, Clone)]
pub enum ConfigIssue {
    /// A setting that is defined but that nothing reads.
    FakeConfig { path: String, description: String },
    /// A setting placed in the wrong section.
    WrongLocation { path: String, correct_location: String, description: String },
    /// A field under a name other than the one the code reads.
    FieldMismatch { config_field: String, code_field: String, description: String },
    /// A setting that is required but absent.
    MissingConfig { path: String, description: String },
}

/// A configuration issue with its texts as character sequences.
pub enum IssueView {
    FakeConfig { path: Seq<char>, description: Seq<char> },
    WrongLocation { path: Seq<char>, correct_location: Seq<char>, description: Seq<char> },
    FieldMismatch { config_field: Seq<char>, code_field: Seq<char>, description: Seq<char> },
    MissingConfig { path: Seq<char>, description: Seq<char> },
}

impl View for ConfigIssue {
    type V = IssueView;

    open spec fn view(&self) -> IssueView {
        match self {
            ConfigIssue::FakeConfig { path, description } => IssueView::FakeConfig {
                path: path@,
                description: description@,
            },
            ConfigIssue::WrongLocation { path, correct_location, description } => IssueView::WrongLocation {
                path: path@,
                correct_location: correct_location@,
                description: description@,
            },
            ConfigIssue::FieldMismatch { config_field, code_field, description } => IssueView::FieldMismatch {
                config_field: config_field@,
                code_field: code_field@,
                description: description@,
            },
            ConfigIssue::MissingConfig { path, description } => IssueView::MissingConfig {
                path: path@,
                description: description@,
            },
        }
    }
}

/// The texts of a list of strings.
pub open spec fn texts(s: Seq<String>) -> Seq<Seq<char>> {
    s.map_values(|x: String| x@)
}

/// The views of a list of issues.
pub open spec fn issue_views(s: Seq<ConfigIssue>) -> Seq<IssueView> {
    s.map_values(|x: ConfigIssue| x@)
}

/// The setting paths that the miner reads.
pub open spec fn valid_path_list() -> Seq<Seq<char>> {
    seq![
        "general.log_level"@,
        "general.log_file"@,
        "general.pid_file"@,
        "general.work_restart_timeout"@,
        "general.scan_time"@,
        "cores.enabled_cores"@,
        "cores.default_core"@,
        "cores.btc_software.enabled"@,
        "cores.btc_software.device_count"@,
        "cores.btc_software.min_hashrate"@,
        "cores.btc_software.max_hashrate"@,
        "cores.btc_software.error_rate"@,
        "cores.btc_software.batch_size"@,
        "cores.btc_software.work_timeout_ms"@,
        "cores.btc_software.cpu_affinity.enabled"@,
        "cores.btc_software.cpu_affinity.strategy"@,
        "cores.btc_software.cpu_affinity.manual_mapping"@,
        "cores.btc_software.cpu_affinity.avoid_hyperthreading"@,
        "cores.btc_software.cpu_affinity.prefer_performance_cores"@,
        "cores.maijie_l7.enabled"@,
        "cores.maijie_l7.chain_count"@,
        "cores.maijie_l7.spi_speed"@,
        "cores.maijie_l7.uart_baud"@,
        "cores.maijie_l7.auto_detect"@,
        "cores.maijie_l7.power_limit"@,
        "cores.maijie_l7.cooling_mode"@,
        "pools.strategy"@,
        "pools.failover_timeout"@,
        "pools.retry_interval"@,
        "pools.pools"@,
        "devices.auto_detect"@,
        "devices.scan_interval"@,
        "api.enabled"@,
        "api.bind_address"@,
        "api.port"@,
        "monitoring.enabled"@,
        "monitoring.metrics_interval"@,
        "monitoring.web_port"@,
        "monitoring.alert_thresholds"@,
        "hashmeter.enabled"@,
        "hashmeter.log_interval"@,
        "hashmeter.per_device_stats"@,
        "hashmeter.console_output"@,
        "hashmeter.beautiful_output"@,
        "hashmeter.hashrate_unit"@,
        "web.enabled"@,
        "web.port"@,
        "web.bind_address"@,
        "web.static_path"@,
        "web.static_files_dir"@,
        "web.template_dir"@,
    ]
}

/// The setting paths that the miner reads.
fn valid_paths() -> (v: Vec<String>)
    ensures
        texts(v@) == valid_path_list(),
{
    let mut v: Vec<String> = Vec::new();
    v.push(String::from_str("general.log_level"));
    v.push(String::from_str("general.log_file"));
    v.push(String::from_str("general.pid_file"));
    v.push(String::from_str("general.work_restart_timeout"));
    v.push(String::from_str("general.scan_time"));
    v.push(String::from_str("cores.enabled_cores"));
    v.push(String::from_str("cores.default_core"));
    v.push(String::from_str("cores.btc_software.enabled"));
    v.push(String::from_str("cores.btc_software.device_count"));
    v.push(String::from_str("cores.btc_software.min_hashrate"));
    v.push(String::from_str("cores.btc_software.max_hashrate"));
    v.push(String::from_str("cores.btc_software.error_rate"));
    v.push(String::from_str("cores.btc_software.batch_size"));
    v.push(String::from_str("cores.btc_software.work_timeout_ms"));
    v.push(String::from_str("cores.btc_software.cpu_affinity.enabled"));
    v.push(String::from_str("cores.btc_software.cpu_affinity.strategy"));
    v.push(String::from_str("cores.btc_software.cpu_affinity.manual_mapping"));
    v.push(String::from_str("cores.btc_software.cpu_affinity.avoid_hyperthreading"));
    v.push(String::from_str("cores.btc_software.cpu_affinity.prefer_performance_cores"));
    v.push(String::from_str("cores.maijie_l7.enabled"));
    v.push(String::from_str("cores.maijie_l7.chain_count"));
    v.push(String::from_str("cores.maijie_l7.spi_speed"));
    v.push(String::from_str("cores.maijie_l7.uart_baud"));
    v.push(String::from_str("cores.maijie_l7.auto_detect"));
    v.push(String::from_str("cores.maijie_l7.power_limit"));
    v.push(String::from_str("cores.maijie_l7.cooling_mode"));
    v.push(String::from_str("pools.strategy"));
    v.push(String::from_str("pools.failover_timeout"));
    v.push(String::from_str("pools.retry_interval"));
    v.push(String::from_str("pools.pools"));
    v.push(String::from_str("devices.auto_detect"));
    v.push(String::from_str("devices.scan_interval"));
    v.push(String::from_str("api.enabled"));
    v.push(String::from_str("api.bind_address"));
    v.push(String::from_str("api.port"));
    v.push(String::from_str("monitoring.enabled"));
    v.push(String::from_str("monitoring.metrics_interval"));
    v.push(String::from_str("monitoring.web_port"));
    v.push(String::from_str("monitoring.alert_thresholds"));
    v.push(String::from_str("hashmeter.enabled"));
    v.push(String::from_str("hashmeter.log_interval"));
    v.push(String::from_str("hashmeter.per_device_stats"));
    v.push(String::from_str("hashmeter.console_output"));
    v.push(String::from_str("hashmeter.beautiful_output"));
    v.push(String::from_str("hashmeter.hashrate_unit"));
    v.push(String::from_str("web.enabled"));
    v.push(String::from_str("web.port"));
    v.push(String::from_str("web.bind_address"));
    v.push(String::from_str("web.static_path"));
    v.push(String::from_str("web.static_files_dir"));
    v.push(String::from_str("web.template_dir"));
    assert(texts(v@) =~= valid_path_list());
    v
}

/// Finds problems in a configuration.
pub struct ConfigValidator {
    valid_config_paths: Vec<String>,
    issues: Vec<ConfigIssue>,
}

impl ConfigValidator {
    /// The setting paths that count as read.
    pub closed spec fn valid_paths(&self) -> Seq<Seq<char>> {
        texts(self.valid_config_paths@)
    }

    /// The problems found so far, in the order they were found.
    pub closed spec fn issues(&self) -> Seq<IssueView> {
        issue_views(self.issues@)
    }

    /// A validator that knows the settings the miner reads, each once, and
    /// has found nothing yet.
    pub fn new() -> (r: Self)
        ensures
            r.valid_paths().to_set() == valid_path_list().to_set(),
            r.valid_paths().no_duplicates(),
            r.issues() == Seq::<IssueView>::empty(),
    {
        let mut paths: Vec<String> = Vec::new();
        add_valid_paths(&mut paths);
        proof {
            assert(texts(Seq::<String>::empty()).to_set() =~= Set::<Seq<char>>::empty());
            assert(texts(paths@).to_set() =~= valid_path_list().to_set());
        }
        let r = ConfigValidator { valid_config_paths: paths, issues: Vec::new() };
        assert(r.issues() =~= Seq::<IssueView>::empty());
        r
    }

    /// Whether `path` is a setting the miner reads.
    pub fn is_valid_path(&self, path: &str) -> (r: bool)
        ensures
            r == self.valid_paths().contains(path@),
    {
        contains_text(&self.valid_config_paths, path)
    }
}

/// Whether one of `list` holds the text `s`.
fn contains_text(list: &Vec<String>, s: &str) -> (r: bool)
    ensures
        r == texts(list@).contains(s@),
{
    let mut i: usize = 0;
    while i < list.len()
        invariant
            i <= list@.len(),
            forall|j: int| 0 <= j < i ==> (#[trigger] list@[j])@ != s@,
        decreases list@.len() - i,
    {
        if str_equal(list[i].as_str(), s) {
            assert(texts(list@)[i as int] == s@);
            return true;
        }
        i = i + 1;
    }
    assert(!texts(list@).contains(s@)) by {
        if texts(list@).contains(s@) {
            let k = choose|k: int| 0 <= k < texts(list@).len() && texts(list@)[k] == s@;
            assert(list@[k]@ == s@);
        }
    }
    false
}

/// Adds each setting path the miner reads to `paths`, unless it is there
/// already. The texts held afterwards are those held before together with
/// the valid paths; what was there keeps its place, nothing is held twice
/// that was not held twice before, and a second call changes nothing.
pub fn add_valid_paths(paths: &mut Vec<String>)
    ensures
        texts(final(paths)@).to_set() == texts(old(paths)@).to_set().union(valid_path_list().to_set()),
        old(paths)@.len() <= final(paths)@.len(),
        final(paths)@.subrange(0, old(paths)@.len() as int) == old(paths)@,
        texts(old(paths)@).no_duplicates() ==> texts(final(paths)@).no_duplicates(),
        valid_path_list().to_set().subset_of(texts(old(paths)@).to_set()) ==> final(paths)@ == old(paths)@,
{
    let list = valid_paths();
    let ghost start = paths@;
    let mut i: usize = 0;
    while i < list.len()
        invariant
            texts(list@) == valid_path_list(),
            i <= list@.len(),
            start.len() <= paths@.len(),
            paths@.subrange(0, start.len() as int) == start,
            texts(paths@).to_set() == texts(start).to_set().union(valid_path_list().take(i as int).to_set()),
            texts(start).no_duplicates() ==> texts(paths@).no_duplicates(),
            valid_path_list().to_set().subset_of(texts(start).to_set()) ==> paths@ == start,
        decreases list@.len() - i,
    {
        let ghost before = paths@;
        let ghost item = valid_path_list()[i as int];
        assert(list@[i as int]@ == item);
        assert(valid_path_list().take(i + 1) =~= valid_path_list().take(i as int).push(item));
        proof {
            valid_path_list().take(i as int).lemma_push_to_set_commute(item);
            assert(valid_path_list().take(i + 1).to_set() =~= valid_path_list().take(i as int).to_set().insert(item));
            assert forall|k: int| 0 <= k < start.len() implies texts(start)[k] == #[trigger] texts(before)[k] by {
                assert(before.subrange(0, start.len() as int)[k] == before[k]);
            }
        }
        if !contains_text(paths, list[i].as_str()) {
            paths.push(list[i].clone());
            proof {
                assert(texts(paths@) =~= texts(before).push(item));
                assert(texts(paths@).to_set() =~= texts(before).to_set().insert(item)) by {
                    texts(before).lemma_push_to_set_commute(item);
                }
                assert(paths@.subrange(0, start.len() as int) =~= before.subrange(0, start.len() as int));
                assert(!valid_path_list().to_set().subset_of(texts(start).to_set())) by {
                    assert(valid_path_list().to_set().contains(item));
                    if texts(start).to_set().contains(item) {
                        let k = choose|k: int| 0 <= k < texts(start).len() && texts(start)[k] == item;
                        assert(texts(before)[k] == item);
                        assert(texts(before).contains(item));
                    }
                }
                if texts(start).no_duplicates() {
                    assert forall|a: int, b: int| 0 <= a < b < texts(paths@).len() implies
                        texts(paths@)[a] != texts(paths@)[b] by {
                        if b == texts(paths@).len() - 1 {
                            assert(texts(before)[a] == texts(paths@)[a]);
                        }
                    }
                }
            }
        } else {
            assert(texts(before).to_set().contains(item));
        }
        assert(texts(paths@).to_set() =~= texts(start).to_set().union(valid_path_list().take(i + 1).to_set()));
        i = i + 1;
    }
    assert(valid_path_list().take(list@.len() as int) =~= valid_path_list());
}

/// `prefix.key`, or `key` alone at the top of the document.
pub open spec fn join_path(prefix: Seq<char>, key: Seq<char>) -> Seq<char> {
    if prefix.len() == 0 {
        key
    } else {
        prefix + "."@ + key
    }
}

/// Settings under these prefixes are defined but nothing reads them.
pub open spec fn is_fake_path(path: Seq<char>) -> bool {
    ||| seq_starts_with(path, "performance"@)
    ||| seq_starts_with(path, "limits"@)
    ||| seq_starts_with(path, "logging"@)
    ||| seq_starts_with(path, "performance.hashrate_optimization"@)
    ||| seq_starts_with(path, "performance.memory_optimization"@)
    ||| seq_starts_with(path, "performance.thread_optimization"@)
    ||| seq_starts_with(path, "performance.batch_optimization"@)
    ||| seq_starts_with(path, "performance.network_optimization"@)
}

/// Why a setting under `path` has no effect.
pub open spec fn fake_description(path: Seq<char>) -> Seq<char> {
    if seq_starts_with(path, "performance"@) {
        "性能配置块已定义但在代码中完全未使用，这是虚假配置"@
    } else if seq_starts_with(path, "limits"@) {
        "资源限制配置已定义但在代码中完全未使用，这是虚假配置"@
    } else if seq_starts_with(path, "logging"@) {
        "日志配置块已定义但在代码中完全未使用，这是虚假配置"@
    } else {
        "此配置项在代码中未被使用"@
    }
}

/// The issue raised by the setting `val` at `path` itself: a value that is
/// not a table, at a path nothing reads, under a prefix known to be unused.
pub open spec fn entry_issue(valid: Seq<Seq<char>>, path: Seq<char>, val: ConfigValue) -> Seq<IssueView> {
    if !(val is Table) && !valid.contains(path) && is_fake_path(path) {
        seq![IssueView::FakeConfig { path: path, description: fake_description(path) }]
    } else {
        Seq::empty()
    }
}

/// The unused settings found in `v`, whose path is `prefix`, depth first
/// in document order.
pub open spec fn value_issues(valid: Seq<Seq<char>>, prefix: Seq<char>, v: ConfigValue) -> Seq<IssueView>
    decreases v, 0nat,
{
    match v {
        ConfigValue::Table(entries) => entries_issues(valid, prefix, entries@, entries@.len()),
        _ => Seq::empty(),
    }
}

/// The unused settings found in the first `n` entries of a table whose
/// path is `prefix`.
pub open spec fn entries_issues(
    valid: Seq<Seq<char>>,
    prefix: Seq<char>,
    entries: Seq<(String, ConfigValue)>,
    n: nat,
) -> Seq<IssueView>
    decreases entries, n,
{
    if n == 0 || n > entries.len() {
        Seq::empty()
    } else {
        let key = entries[n - 1].0;
        let val = entries[n - 1].1;
        let path = join_path(prefix, key@);
        entries_issues(valid, prefix, entries, (n - 1) as nat) + entry_issue(valid, path, val)
            + value_issues(valid, path, val)
    }
}

/// The value under `key` among the entries from the `i`-th on: the first
/// such entry.
pub open spec fn lookup_from(entries: Seq<(String, ConfigValue)>, key: Seq<char>, i: nat) -> Option<ConfigValue>
    decreases entries.len() - i,
{
    if i >= entries.len() {
        None
    } else if entries[i as int].0@ == key {
        Some(entries[i as int].1)
    } else {
        lookup_from(entries, key, i + 1)
    }
}

/// The value under `key` in a table; nothing in other values.
pub open spec fn lookup(v: ConfigValue, key: Seq<char>) -> Option<ConfigValue> {
    match v {
        ConfigValue::Table(entries) => lookup_from(entries@, key, 0),
        _ => None,
    }
}

/// The API settings placed in the general section.
pub open spec fn wrong_location_issues(config: ConfigValue) -> Seq<IssueView> {
    match lookup(config, "general"@) {
        Some(general) => if lookup(general, "api_port"@) is Some || lookup(general, "api_bind"@) is Some {
            seq![IssueView::WrongLocation {
                path: "general.api_port/api_bind"@,
                correct_location: "api.port/bind_address"@,
                description: "API配置应该在[api]部分，不是[general]部分"@,
            }]
        } else {
            Seq::empty()
        },
        None => Seq::empty(),
    }
}

/// The issue of one pool: a `user` field without a `username` field.
pub open spec fn pool_issue(pool: ConfigValue) -> Seq<IssueView> {
    if lookup(pool, "user"@) is Some && lookup(pool, "username"@) is None {
        seq![IssueView::FieldMismatch {
            config_field: "user"@,
            code_field: "username"@,
            description: "矿池配置应使用'username'字段，不是'user'"@,
        }]
    } else {
        Seq::empty()
    }
}

/// The issues of the first `n` pools.
pub open spec fn pools_issues(pools: Seq<ConfigValue>, n: nat) -> Seq<IssueView>
    decreases n,
{
    if n == 0 || n > pools.len() {
        Seq::empty()
    } else {
        pools_issues(pools, (n - 1) as nat) + pool_issue(pools[n - 1])
    }
}

/// The pool fields under the wrong name, pool by pool.
pub open spec fn field_mismatch_issues(config: ConfigValue) -> Seq<IssueView> {
    match lookup(config, "pools"@) {
        Some(pools) => match lookup(pools, "pools"@) {
            Some(ConfigValue::Array(list)) => pools_issues(list@, list@.len()),
            _ => Seq::empty(),
        },
        None => Seq::empty(),
    }
}

/// The issues of the known kinds: misplaced API settings, then misnamed pool
/// fields.
pub open spec fn known_issues(config: ConfigValue) -> Seq<IssueView> {
    wrong_location_issues(config) + field_mismatch_issues(config)
}

/// The value under `key` in `v`, when `v` is a table that has one.
/// What `toml::from_str::<serde_json::Value>` makes of `text`, as far as the
/// checks read it: the document's tree, or the text of the error it reports.
pub uninterp spec fn toml_tree_of(text: Seq<char>) -> Result<ConfigValue, Seq<char>>;

/// A parse outcome with the error as its text.
pub open spec fn tree_outcome(r: Result<ConfigValue, String>) -> Result<ConfigValue, Seq<char>> {
    match r {
        Ok(v) => Ok(v),
        Err(e) => Err(e@),
    }
}

/// serde_json's tree as the checks read it: objects become tables with their
/// members in the order serde_json hands them out, arrays stay arrays, and
/// every other value is a scalar.
#[verifier::external_body]
fn config_value_from(v: &serde_json::Value) -> ConfigValue {
    match v {
        serde_json::Value::Object(m) => ConfigValue::Table(m.iter().map(|(k, x)| (k.clone(), config_value_from(x))).collect()),
        serde_json::Value::Array(a) => ConfigValue::Array(a.iter().map(config_value_from).collect()),
        _ => ConfigValue::Scalar,
    }
}

/// Parses `text` with `toml::from_str::<serde_json::Value>`: the tree the
/// checks read, or the error's text (`Display` of `toml::de::Error`). The
/// contract names the outcome as a function of the text; the TOML grammar
/// itself is not stated.
#[verifier::external_body]
fn parse_toml_tree(text: &str) -> (r: Result<ConfigValue, String>)
    ensures
        tree_outcome(r) == toml_tree_of(text@),
{
    match toml::from_str::<serde_json::Value>(text) {
        Ok(v) => Ok(config_value_from(&v)),
        Err(e) => Err(e.to_string()),
    }
}

pub fn lookup_value<'a>(v: &'a ConfigValue, key: &str) -> (r: Option<&'a ConfigValue>)
    ensures
        lookup(*v, key@) == match r {
            Some(x) => Some(*x),
            None => None::<ConfigValue>,
        },
{
    match v {
        ConfigValue::Table(entries) => {
            let mut i: usize = 0;
            while i < entries.len()
                invariant
                    *v == ConfigValue::Table(*entries),
                    i <= entries@.len(),
                    lookup_from(entries@, key@, 0) == lookup_from(entries@, key@, i as nat),
                decreases entries@.len() - i,
            {
                if str_equal(entries[i].0.as_str(), key) {
                    return Some(&entries[i].1);
                }
                i = i + 1;
            }
            None
        },
        _ => None,
    }
}

/// `prefix.key`, or `key` alone when the prefix is empty.
fn join(prefix: &str, key: &str) -> (r: String)
    ensures
        r@ == join_path(prefix@, key@),
{
    if prefix.unicode_len() == 0 {
        String::from_str(key)
    } else {
        let mut s = String::from_str(prefix);
        s.append(".");
        s.append(key);
        s
    }
}

impl ConfigValidator {
    /// Whether a setting at `path` is one known to have no effect.
    pub fn is_known_fake_config(&self, path: &str) -> (r: bool)
        ensures
            r == is_fake_path(path@),
    {
        starts_with(path, "performance") || starts_with(path, "limits") || starts_with(path, "logging")
            || starts_with(path, "performance.hashrate_optimization")
            || starts_with(path, "performance.memory_optimization")
            || starts_with(path, "performance.thread_optimization")
            || starts_with(path, "performance.batch_optimization")
            || starts_with(path, "performance.network_optimization")
    }

    /// Why a setting at `path` has no effect.
    pub fn get_fake_config_description(&self, path: &str) -> (r: String)
        ensures
            r@ == fake_description(path@),
    {
        if starts_with(path, "performance") {
            String::from_str("性能配置块已定义但在代码中完全未使用，这是虚假配置")
        } else if starts_with(path, "limits") {
            String::from_str("资源限制配置已定义但在代码中完全未使用，这是虚假配置")
        } else if starts_with(path, "logging") {
            String::from_str("日志配置块已定义但在代码中完全未使用，这是虚假配置")
        } else {
            String::from_str("此配置项在代码中未被使用")
        }
    }

    /// Records the unused settings in `value`, whose path is `prefix`.
    pub fn check_config_value(&mut self, prefix: &str, value: &ConfigValue)
        ensures
            final(self).valid_paths() == old(self).valid_paths(),
            final(self).issues() == old(self).issues() + value_issues(old(self).valid_paths(), prefix@, *value),
        decreases value,
    {
        match value {
            ConfigValue::Table(entries) => {
                let ghost valid = old(self).valid_paths();
                let mut i: usize = 0;
                while i < entries.len()
                    invariant
                        *value == ConfigValue::Table(*entries),
                        valid == old(self).valid_paths(),
                        self.valid_paths() == valid,
                        i <= entries@.len(),
                        self.issues() == old(self).issues() + entries_issues(valid, prefix@, entries@, i as nat),
                    decreases entries@.len() - i,
                {
                    let key = &entries[i].0;
                    let val = &entries[i].1;
                    let path = join(prefix, key.as_str());
                    let is_table = match val {
                        ConfigValue::Table(_) => true,
                        _ => false,
                    };
                    let ghost before = self.issues();
                    if !is_table && !self.is_valid_path(path.as_str()) && self.is_known_fake_config(path.as_str()) {
                        let description = self.get_fake_config_description(path.as_str());
                        self.issues.push(ConfigIssue::FakeConfig { path: path.clone(), description });
                        assert(self.issues() =~= before + entry_issue(valid, path@, *val));
                    } else {
                        assert(self.issues() =~= before + entry_issue(valid, path@, *val));
                    }
                    proof {
                        assert(*value is Table);
                        assert((*value)->Table_0 == *entries);
                        assert(decreases_to!(*value => (*value)->Table_0));
                        assert(decreases_to!(*entries => entries@));
                        assert(decreases_to!(entries@ => entries@[i as int]));
                        assert(decreases_to!(entries@[i as int] => entries@[i as int].1));
                        assert(decreases_to!(*value => entries@[i as int].1));
                    }
                    self.check_config_value(path.as_str(), val);
                    assert(self.issues() =~= old(self).issues() + entries_issues(valid, prefix@, entries@, (i + 1) as nat));
                    i = i + 1;
                }
            },
            _ => {
                assert(self.issues() =~= old(self).issues() + value_issues(old(self).valid_paths(), prefix@, *value));
            },
        }
    }
}


/// The three groups of issues that the report lists.
#[derive(Debug, Clone, Copy, PartialEq, Eq)]
pub enum ReportSection {
    Fake,
    WrongLocation,
    FieldMismatch,
}

/// Whether an issue is listed in a report section.
pub open spec fn in_section(section: ReportSection, v: IssueView) -> bool {
    match section {
        ReportSection::Fake => v is FakeConfig,
        ReportSection::WrongLocation => v is WrongLocation,
        ReportSection::FieldMismatch => v is FieldMismatch,
    }
}

/// The report line of an issue in its section.
pub open spec fn issue_line(v: IssueView) -> Seq<char> {
    match v {
        IssueView::FakeConfig { path, description } => "- **"@ + path + "**: "@ + description + "\n"@,
        IssueView::WrongLocation { path, correct_location, description } => "- **"@ + path + "** → **"@
            + correct_location + "**: "@ + description + "\n"@,
        IssueView::FieldMismatch { config_field, code_field, description } => "- **"@ + config_field
            + "** → **"@ + code_field + "**: "@ + description + "\n"@,
        IssueView::MissingConfig { .. } => Seq::empty(),
    }
}

/// The lines of a section, in the order of the issues.
pub open spec fn section_lines(section: ReportSection, issues: Seq<IssueView>) -> Seq<char>
    decreases issues.len(),
{
    if issues.len() == 0 {
        Seq::empty()
    } else {
        section_lines(section, issues.drop_last()) + (if in_section(section, issues.last()) {
            issue_line(issues.last())
        } else {
            Seq::empty()
        })
    }
}

/// A section of the report: its title and lines, or nothing when no issue
/// falls in it.
pub open spec fn section_block(section: ReportSection, title: Seq<char>, issues: Seq<IssueView>) -> Seq<char> {
    if exists|i: int| 0 <= i < issues.len() && in_section(section, #[trigger] issues[i]) {
        title + section_lines(section, issues) + "\n"@
    } else {
        Seq::empty()
    }
}

/// The closing advice of a report with issues.
pub open spec fn advice_text() -> Seq<char> {
    "## 💡 修复建议\n\n"@ + "1. **移除所有虚假配置** - 这些配置不会产生任何效果\n"@
        + "2. **修复配置位置** - 将配置移动到正确的部分\n"@
        + "3. **更新字段名** - 使用代码中实际支持的字段名\n"@
        + "4. **使用修复后的配置文件** - 参考 `software_core_max_cpu_fixed.toml`\n\n"@
}

/// The validation report of a list of issues, in Markdown.
pub open spec fn report_text(issues: Seq<IssueView>) -> Seq<char> {
    let header = "# CGMiner-RS 配置验证报告\n\n"@;
    if issues.len() == 0 {
        header + "✅ **配置验证通过** - 未发现问题\n\n"@
    } else {
        header + "⚠️  **发现 "@ + decimal(issues.len()) + " 个配置问题**\n\n"@
            + section_block(ReportSection::Fake, "## 🚨 虚假配置 (定义但未使用)\n\n"@, issues)
            + section_block(ReportSection::WrongLocation, "## ⚠️  配置位置错误\n\n"@, issues)
            + section_block(ReportSection::FieldMismatch, "## 🔄 字段名不匹配\n\n"@, issues)
            + advice_text()
    }
}

/// The level and text of the console line of an issue.
pub open spec fn result_line(v: IssueView) -> (LogLevel, Seq<char>) {
    match v {
        IssueView::FakeConfig { path, description } => (
            LogLevel::Error,
            "🚨 虚假配置: "@ + path + " - "@ + description,
        ),
        IssueView::WrongLocation { path, correct_location, description } => (
            LogLevel::Warn,
            "⚠️  位置错误: "@ + path + " → "@ + correct_location + " - "@ + description,
        ),
        IssueView::FieldMismatch { config_field, code_field, description } => (
            LogLevel::Warn,
            "🔄 字段不匹配: "@ + config_field + " → "@ + code_field + " - "@ + description,
        ),
        IssueView::MissingConfig { path, description } => (
            LogLevel::Warn,
            "❓ 缺失配置: "@ + path + " - "@ + description,
        ),
    }
}

/// The console lines that report a list of issues.
pub open spec fn result_lines(issues: Seq<IssueView>) -> Seq<(LogLevel, Seq<char>)> {
    if issues.len() == 0 {
        seq![(LogLevel::Info, "✅ 配置验证通过 - 未发现问题"@)]
    } else {
        seq![(LogLevel::Error, "⚠️  发现 "@ + decimal(issues.len()) + " 个配置问题:"@)]
            + issues.map_values(|v: IssueView| result_line(v))
    }
}

/// The texts of a list of console lines.
pub open spec fn line_views(lines: Seq<(LogLevel, String)>) -> Seq<(LogLevel, Seq<char>)> {
    lines.map_values(|l: (LogLevel, String)| (l.0, l.1@))
}

/// The report line of `issue`, when it falls in `section`.
fn push_issue_line(out: &mut String, section: ReportSection, issue: &ConfigIssue) -> (listed: bool)
    ensures
        listed == in_section(section, issue@),
        final(out)@ == old(out)@ + (if listed { issue_line(issue@) } else { Seq::empty() }),
{
    match (section, issue) {
        (ReportSection::Fake, ConfigIssue::FakeConfig { path, description }) => {
            out.append("- **");
            out.append(path.as_str());
            out.append("**: ");
            out.append(description.as_str());
            out.append("\n");
            true
        },
        (ReportSection::WrongLocation, ConfigIssue::WrongLocation { path, correct_location, description }) => {
            out.append("- **");
            out.append(path.as_str());
            out.append("** → **");
            out.append(correct_location.as_str());
            out.append("**: ");
            out.append(description.as_str());
            out.append("\n");
            true
        },
        (ReportSection::FieldMismatch, ConfigIssue::FieldMismatch { config_field, code_field, description }) => {
            out.append("- **");
            out.append(config_field.as_str());
            out.append("** → **");
            out.append(code_field.as_str());
            out.append("**: ");
            out.append(description.as_str());
            out.append("\n");
            true
        },
        _ => {
            assert(old(out)@ + Seq::<char>::empty() =~= old(out)@);
            false
        },
    }
}

/// The console line of an issue.
fn issue_result_line(issue: &ConfigIssue) -> (r: (LogLevel, String))
    ensures
        (r.0, r.1@) == result_line(issue@),
{
    match issue {
        ConfigIssue::FakeConfig { path, description } => {
            let mut s = String::from_str("🚨 虚假配置: ");
            s.append(path.as_str());
            s.append(" - ");
            s.append(description.as_str());
            (LogLevel::Error, s)
        },
        ConfigIssue::WrongLocation { path, correct_location, description } => {
            let mut s = String::from_str("⚠️  位置错误: ");
            s.append(path.as_str());
            s.append(" → ");
            s.append(correct_location.as_str());
            s.append(" - ");
            s.append(description.as_str());
            (LogLevel::Warn, s)
        },
        ConfigIssue::FieldMismatch { config_field, code_field, description } => {
            let mut s = String::from_str("🔄 字段不匹配: ");
            s.append(config_field.as_str());
            s.append(" → ");
            s.append(code_field.as_str());
            s.append(" - ");
            s.append(description.as_str());
            (LogLevel::Warn, s)
        },
        ConfigIssue::MissingConfig { path, description } => {
            let mut s = String::from_str("❓ 缺失配置: ");
            s.append(path.as_str());
            s.append(" - ");
            s.append(description.as_str());
            (LogLevel::Warn, s)
        },
    }
}

impl ConfigValidator {
    /// Records the issues of the known kinds in `config`.
    pub fn check_known_issues(&mut self, config: &ConfigValue)
        ensures
            final(self).valid_paths() == old(self).valid_paths(),
            final(self).issues() == old(self).issues() + known_issues(*config),
    {
        let ghost before = self.issues();
        match lookup_value(config, "general") {
            Some(general) => {
                if lookup_value(general, "api_port").is_some() || lookup_value(general, "api_bind").is_some() {
                    self.issues.push(ConfigIssue::WrongLocation {
                        path: String::from_str("general.api_port/api_bind"),
                        correct_location: String::from_str("api.port/bind_address"),
                        description: String::from_str("API配置应该在[api]部分，不是[general]部分"),
                    });
                }
            },
            None => {},
        }
        assert(self.issues() =~= before + wrong_location_issues(*config));
        let ghost mid = self.issues();
        match lookup_value(config, "pools") {
            Some(pools) => match lookup_value(pools, "pools") {
                Some(ConfigValue::Array(list)) => {
                    let mut i: usize = 0;
                    while i < list.len()
                        invariant
                            i <= list@.len(),
                            self.valid_paths() == old(self).valid_paths(),
                            self.issues() == mid + pools_issues(list@, i as nat),
                        decreases list@.len() - i,
                    {
                        let pool = &list[i];
                        let ghost at = self.issues();
                        if lookup_value(pool, "user").is_some() && lookup_value(pool, "username").is_none() {
                            self.issues.push(ConfigIssue::FieldMismatch {
                                config_field: String::from_str("user"),
                                code_field: String::from_str("username"),
                                description: String::from_str("矿池配置应使用'username'字段，不是'user'"),
                            });
                        }
                        assert(self.issues() =~= at + pool_issue(list@[i as int]));
                        assert(self.issues() =~= mid + pools_issues(list@, (i + 1) as nat));
                        i = i + 1;
                    }
                    assert(self.issues() =~= mid + field_mismatch_issues(*config));
                },
                _ => {
                    assert(self.issues() =~= mid + field_mismatch_issues(*config));
                },
            },
            None => {
                assert(self.issues() =~= mid + field_mismatch_issues(*config));
            },
        }
    }

    /// Checks the text of a configuration file: a text that does not parse
    /// as TOML is refused with the parser's error and nothing is checked;
    /// otherwise its tree is checked as `validate_config_value` checks it.
    pub fn validate_config_text(&mut self, text: &str) -> (r: Result<(), String>)
        ensures
            final(self).valid_paths() == old(self).valid_paths(),
            match toml_tree_of(text@) {
                Err(e) => (r matches Err(m) && m@ == e) && final(self).issues() == old(self).issues(),
                Ok(t) => r is Ok && final(self).issues() == old(self).issues()
                    + value_issues(old(self).valid_paths(), Seq::empty(), t) + known_issues(t),
            },
    {
        match parse_toml_tree(text) {
            Err(e) => Err(e),
            Ok(tree) => {
                self.validate_config_value(&tree);
                Ok(())
            },
        }
    }

    /// Checks a parsed configuration document: first every setting for
    /// settings that nothing reads, then the known misplacements.
    pub fn validate_config_value(&mut self, config: &ConfigValue)
        ensures
            final(self).valid_paths() == old(self).valid_paths(),
            final(self).issues() == old(self).issues() + value_issues(old(self).valid_paths(), Seq::empty(), *config)
                + known_issues(*config),
    {
        proof {
            reveal_strlit("");
            assert(""@ =~= Seq::<char>::empty());
        }
        self.check_config_value("", config);
        self.check_known_issues(config);
    }

    /// A section of the report.
    fn section_block_text(&self, section: ReportSection, title: &str) -> (r: String)
        ensures
            r@ == section_block(section, title@, self.issues()),
    {
        let issues = &self.issues;
        let mut lines = String::new();
        let mut found = false;
        let mut i: usize = 0;
        while i < issues.len()
            invariant
                issues == &self.issues,
                i <= issues@.len(),
                lines@ == section_lines(section, issue_views(issues@).subrange(0, i as int)),
                found == exists|j: int| 0 <= j < i && in_section(section, #[trigger] issue_views(issues@)[j]),
            decreases issues@.len() - i,
        {
            let listed = push_issue_line(&mut lines, section, &issues[i]);
            let ghost views = issue_views(issues@);
            assert(views.subrange(0, i + 1).drop_last() =~= views.subrange(0, i as int));
            assert(views[i as int] == issues@[i as int]@);
            if listed {
                found = true;
                assert(in_section(section, views[i as int]));
            } else {
                assert forall|j: int| 0 <= j < i + 1 && in_section(section, #[trigger] views[j]) implies j < i by {
                }
            }
            i = i + 1;
        }
        assert(issue_views(issues@).subrange(0, issues@.len() as int) =~= issue_views(issues@));
        if found {
            let mut s = String::from_str(title);
            s.append(lines.as_str());
            s.append("\n");
            s
        } else {
            String::new()
        }
    }

    /// The validation report, in Markdown.
    pub fn generate_report(&self) -> (r: String)
        ensures
            r@ == report_text(self.issues()),
    {
        let mut report = String::from_str("# CGMiner-RS 配置验证报告\n\n");
        if self.issues.len() == 0 {
            report.append("✅ **配置验证通过** - 未发现问题\n\n");
            return report;
        }
        report.append("⚠️  **发现 ");
        push_decimal(&mut report, self.issues.len() as u64);
        report.append(" 个配置问题**\n\n");
        let fake = self.section_block_text(ReportSection::Fake, "## 🚨 虚假配置 (定义但未使用)\n\n");
        report.append(fake.as_str());
        let wrong = self.section_block_text(ReportSection::WrongLocation, "## ⚠️  配置位置错误\n\n");
        report.append(wrong.as_str());
        let mismatch = self.section_block_text(ReportSection::FieldMismatch, "## 🔄 字段名不匹配\n\n");
        report.append(mismatch.as_str());
        report.append("## 💡 修复建议\n\n");
        report.append("1. **移除所有虚假配置** - 这些配置不会产生任何效果\n");
        report.append("2. **修复配置位置** - 将配置移动到正确的部分\n");
        report.append("3. **更新字段名** - 使用代码中实际支持的字段名\n");
        report.append("4. **使用修复后的配置文件** - 参考 `software_core_max_cpu_fixed.toml`\n\n");
        report
    }

    /// The console lines that report the results, each with its level: a
    /// summary line, then one line per issue.
    pub fn print_results(&self) -> (r: Vec<(LogLevel, String)>)
        ensures
            line_views(r@) == result_lines(self.issues()),
    {
        let mut lines: Vec<(LogLevel, String)> = Vec::new();
        if self.issues.len() == 0 {
            lines.push((LogLevel::Info, String::from_str("✅ 配置验证通过 - 未发现问题")));
            assert(line_views(lines@) =~= result_lines(self.issues()));
            return lines;
        }
        let mut head = String::from_str("⚠️  发现 ");
        push_decimal(&mut head, self.issues.len() as u64);
        head.append(" 个配置问题:");
        lines.push((LogLevel::Error, head));
        let issues = &self.issues;
        let mut i: usize = 0;
        while i < issues.len()
            invariant
                issues == &self.issues,
                issues@.len() > 0,
                i <= issues@.len(),
                line_views(lines@) == seq![(LogLevel::Error, "⚠️  发现 "@ + decimal(issues@.len()) + " 个配置问题:"@)]
                    + issue_views(issues@).subrange(0, i as int).map_values(|v: IssueView| result_line(v)),
            decreases issues@.len() - i,
        {
            let line = issue_result_line(&issues[i]);
            let ghost old_lines = lines@;
            let ghost views = issue_views(issues@);
            lines.push(line);
            assert(line_views(lines@) =~= line_views(old_lines).push(result_line(views[i as int])));
            assert(views.subrange(0, i + 1).map_values(|v: IssueView| result_line(v)) =~= views.subrange(
                0,
                i as int,
            ).map_values(|v: IssueView| result_line(v)).push(result_line(views[i as int])));
            assert(line_views(lines@) =~= seq![(LogLevel::Error, "⚠️  发现 "@ + decimal(issues@.len()) + " 个配置问题:"@)]
                + issue_views(issues@).subrange(0, i + 1).map_values(|v: IssueView| result_line(v)));
            i = i + 1;
        }
        assert(issue_views(issues@).subrange(0, issues@.len() as int) =~= issue_views(issues@));
        lines
    }
}


/// A setting the miner reads is never reported as unused.
pub proof fn law_read_settings_never_flagged(valid: Seq<Seq<char>>, path: Seq<char>, val: ConfigValue)
    requires
        valid.contains(path),
    ensures
        entry_issue(valid, path, val) == Seq::<IssueView>::empty(),
{
}



/// A text that differs from `p` at a position of both is not prefixed by it.
proof fn lemma_not_prefixed(s: Seq<char>, p: Seq<char>, i: int)
    requires
        0 <= i < p.len(),
        i < s.len(),
        s[i] != p[i],
    ensures
        !seq_starts_with(s, p),
{
    if seq_starts_with(s, p) {
        assert(s.subrange(0, p.len() as int)[i] == s[i]);
    }
}

/// A text prefixed by `q`, itself prefixed by `p`, is prefixed by `p`.
proof fn lemma_prefix_of_prefix(s: Seq<char>, q: Seq<char>, p: Seq<char>)
    requires
        seq_starts_with(s, q),
        seq_starts_with(q, p),
    ensures
        seq_starts_with(s, p),
{
    assert(s.subrange(0, p.len() as int) =~= q.subrange(0, p.len() as int));
}

/// No setting the miner reads is a known ineffective one: none of the valid
/// paths lies under `performance`, `limits` or `logging`.
pub proof fn law_valid_paths_are_not_fake()
    ensures
        forall|i: int| 0 <= i < valid_path_list().len() ==> !is_fake_path(#[trigger] valid_path_list()[i]),
{
    reveal_strlit("performance");
    reveal_strlit("limits");
    reveal_strlit("logging");
    reveal_strlit("performance.hashrate_optimization");
    reveal_strlit("performance.memory_optimization");
    reveal_strlit("performance.thread_optimization");
    reveal_strlit("performance.batch_optimization");
    reveal_strlit("performance.network_optimization");
    assert forall|s: Seq<char>| seq_starts_with(s, "performance.hashrate_optimization"@) implies seq_starts_with(s, "performance"@) by {
        assert("performance.hashrate_optimization"@.subrange(0, 11) =~= "performance"@);
        lemma_prefix_of_prefix(s, "performance.hashrate_optimization"@, "performance"@);
    }
    assert forall|s: Seq<char>| seq_starts_with(s, "performance.memory_optimization"@) implies seq_starts_with(s, "performance"@) by {
        assert("performance.memory_optimization"@.subrange(0, 11) =~= "performance"@);
        lemma_prefix_of_prefix(s, "performance.memory_optimization"@, "performance"@);
    }
    assert forall|s: Seq<char>| seq_starts_with(s, "performance.thread_optimization"@) implies seq_starts_with(s, "performance"@) by {
        assert("performance.thread_optimization"@.subrange(0, 11) =~= "performance"@);
        lemma_prefix_of_prefix(s, "performance.thread_optimization"@, "performance"@);
    }
    assert forall|s: Seq<char>| seq_starts_with(s, "performance.batch_optimization"@) implies seq_starts_with(s, "performance"@) by {
        assert("performance.batch_optimization"@.subrange(0, 11) =~= "performance"@);
        lemma_prefix_of_prefix(s, "performance.batch_optimization"@, "performance"@);
    }
    assert forall|s: Seq<char>| seq_starts_with(s, "performance.network_optimization"@) implies seq_starts_with(s, "performance"@) by {
        assert("performance.network_optimization"@.subrange(0, 11) =~= "performance"@);
        lemma_prefix_of_prefix(s, "performance.network_optimization"@, "performance"@);
    }
    reveal_strlit("general.log_level");
    lemma_not_prefixed("general.log_level"@, "performance"@, 0);
    lemma_not_prefixed("general.log_level"@, "limits"@, 0);
    lemma_not_prefixed("general.log_level"@, "logging"@, 0);
    reveal_strlit("general.log_file");
    lemma_not_prefixed("general.log_file"@, "performance"@, 0);
    lemma_not_prefixed("general.log_file"@, "limits"@, 0);
    lemma_not_prefixed("general.log_file"@, "logging"@, 0);
    reveal_strlit("general.pid_file");
    lemma_not_prefixed("general.pid_file"@, "performance"@, 0);
    lemma_not_prefixed("general.pid_file"@, "limits"@, 0);
    lemma_not_prefixed("general.pid_file"@, "logging"@, 0);
    reveal_strlit("general.work_restart_timeout");
    lemma_not_prefixed("general.work_restart_timeout"@, "performance"@, 0);
    lemma_not_prefixed("general.work_restart_timeout"@, "limits"@, 0);
    lemma_not_prefixed("general.work_restart_timeout"@, "logging"@, 0);
    reveal_strlit("general.scan_time");
    lemma_not_prefixed("general.scan_time"@, "performance"@, 0);
    lemma_not_prefixed("general.scan_time"@, "limits"@, 0);
    lemma_not_prefixed("general.scan_time"@, "logging"@, 0);
    reveal_strlit("cores.enabled_cores");
    lemma_not_prefixed("cores.enabled_cores"@, "performance"@, 0);
    lemma_not_prefixed("cores.enabled_cores"@, "limits"@, 0);
    lemma_not_prefixed("cores.enabled_cores"@, "logging"@, 0);
    reveal_strlit("cores.default_core");
    lemma_not_prefixed("cores.default_core"@, "performance"@, 0);
    lemma_not_prefixed("cores.default_core"@, "limits"@, 0);
    lemma_not_prefixed("cores.default_core"@, "logging"@, 0);
    reveal_strlit("cores.btc_software.enabled");
    lemma_not_prefixed("cores.btc_software.enabled"@, "performance"@, 0);
    lemma_not_prefixed("cores.btc_software.enabled"@, "limits"@, 0);
    lemma_not_prefixed("cores.btc_software.enabled"@, "logging"@, 0);
    reveal_strlit("cores.btc_software.device_count");
    lemma_not_prefixed("cores.btc_software.device_count"@, "performance"@, 0);
    lemma_not_prefixed("cores.btc_software.device_count"@, "limits"@, 0);
    lemma_not_prefixed("cores.btc_software.device_count"@, "logging"@, 0);
    reveal_strlit("cores.btc_software.min_hashrate");
    lemma_not_prefixed("cores.btc_software.min_hashrate"@, "performance"@, 0);
    lemma_not_prefixed("cores.btc_software.min_hashrate"@, "limits"@, 0);
    lemma_not_prefixed("cores.btc_software.min_hashrate"@, "logging"@, 0);
    reveal_strlit("cores.btc_software.max_hashrate");
    lemma_not_prefixed("cores.btc_software.max_hashrate"@, "performance"@, 0);
    lemma_not_prefixed("cores.btc_software.max_hashrate"@, "limits"@, 0);
    lemma_not_prefixed("cores.btc_software.max_hashrate"@, "logging"@, 0);
    reveal_strlit("cores.btc_software.error_rate");
    lemma_not_prefixed("cores.btc_software.error_rate"@, "performance"@, 0);
    lemma_not_prefixed("cores.btc_software.error_rate"@, "limits"@, 0);
    lemma_not_prefixed("cores.btc_software.error_rate"@, "logging"@, 0);
    reveal_strlit("cores.btc_software.batch_size");
    lemma_not_prefixed("cores.btc_software.batch_size"@, "performance"@, 0);
    lemma_not_prefixed("cores.btc_software.batch_size"@, "limits"@, 0);
    lemma_not_prefixed("cores.btc_software.batch_size"@, "logging"@, 0);
    reveal_strlit("cores.btc_software.work_timeout_ms");
    lemma_not_prefixed("cores.btc_software.work_timeout_ms"@, "performance"@, 0);
    lemma_not_prefixed("cores.btc_software.work_timeout_ms"@, "limits"@, 0);
    lemma_not_prefixed("cores.btc_software.work_timeout_ms"@, "logging"@, 0);
    reveal_strlit("cores.btc_software.cpu_affinity.enabled");
    lemma_not_prefixed("cores.btc_software.cpu_affinity.enabled"@, "performance"@, 0);
    lemma_not_prefixed("cores.btc_software.cpu_affinity.enabled"@, "limits"@, 0);
    lemma_not_prefixed("cores.btc_software.cpu_affinity.enabled"@, "logging"@, 0);
    reveal_strlit("cores.btc_software.cpu_affinity.strategy");
    lemma_not_prefixed("cores.btc_software.cpu_affinity.strategy"@, "performance"@, 0);
    lemma_not_prefixed("cores.btc_software.cpu_affinity.strategy"@, "limits"@, 0);
    lemma_not_prefixed("cores.btc_software.cpu_affinity.strategy"@, "logging"@, 0);
    reveal_strlit("cores.btc_software.cpu_affinity.manual_mapping");
    lemma_not_prefixed("cores.btc_software.cpu_affinity.manual_mapping"@, "performance"@, 0);
    lemma_not_prefixed("cores.btc_software.cpu_affinity.manual_mapping"@, "limits"@, 0);
    lemma_not_prefixed("cores.btc_software.cpu_affinity.manual_mapping"@, "logging"@, 0);
    reveal_strlit("cores.btc_software.cpu_affinity.avoid_hyperthreading");
    lemma_not_prefixed("cores.btc_software.cpu_affinity.avoid_hyperthreading"@, "performance"@, 0);
    lemma_not_prefixed("cores.btc_software.cpu_affinity.avoid_hyperthreading"@, "limits"@, 0);
    lemma_not_prefixed("cores.btc_software.cpu_affinity.avoid_hyperthreading"@, "logging"@, 0);
    reveal_strlit("cores.btc_software.cpu_affinity.prefer_performance_cores");
    lemma_not_prefixed("cores.btc_software.cpu_affinity.prefer_performance_cores"@, "performance"@, 0);
    lemma_not_prefixed("cores.btc_software.cpu_affinity.prefer_performance_cores"@, "limits"@, 0);
    lemma_not_prefixed("cores.btc_software.cpu_affinity.prefer_performance_cores"@, "logging"@, 0);
    reveal_strlit("cores.maijie_l7.enabled");
    lemma_not_prefixed("cores.maijie_l7.enabled"@, "performance"@, 0);
    lemma_not_prefixed("cores.maijie_l7.enabled"@, "limits"@, 0);
    lemma_not_prefixed("cores.maijie_l7.enabled"@, "logging"@, 0);
    reveal_strlit("cores.maijie_l7.chain_count");
    lemma_not_prefixed("cores.maijie_l7.chain_count"@, "performance"@, 0);
    lemma_not_prefixed("cores.maijie_l7.chain_count"@, "limits"@, 0);
    lemma_not_prefixed("cores.maijie_l7.chain_count"@, "logging"@, 0);
    reveal_strlit("cores.maijie_l7.spi_speed");
    lemma_not_prefixed("cores.maijie_l7.spi_speed"@, "performance"@, 0);
    lemma_not_prefixed("cores.maijie_l7.spi_speed"@, "limits"@, 0);
    lemma_not_prefixed("cores.maijie_l7.spi_speed"@, "logging"@, 0);
    reveal_strlit("cores.maijie_l7.uart_baud");
    lemma_not_prefixed("cores.maijie_l7.uart_baud"@, "performance"@, 0);
    lemma_not_prefixed("cores.maijie_l7.uart_baud"@, "limits"@, 0);
    lemma_not_prefixed("cores.maijie_l7.uart_baud"@, "logging"@, 0);
    reveal_strlit("cores.maijie_l7.auto_detect");
    lemma_not_prefixed("cores.maijie_l7.auto_detect"@, "performance"@, 0);
    lemma_not_prefixed("cores.maijie_l7.auto_detect"@, "limits"@, 0);
    lemma_not_prefixed("cores.maijie_l7.auto_detect"@, "logging"@, 0);
    reveal_strlit("cores.maijie_l7.power_limit");
    lemma_not_prefixed("cores.maijie_l7.power_limit"@, "performance"@, 0);
    lemma_not_prefixed("cores.maijie_l7.power_limit"@, "limits"@, 0);
    lemma_not_prefixed("cores.maijie_l7.power_limit"@, "logging"@, 0);
    reveal_strlit("cores.maijie_l7.cooling_mode");
    lemma_not_prefixed("cores.maijie_l7.cooling_mode"@, "performance"@, 0);
    lemma_not_prefixed("cores.maijie_l7.cooling_mode"@, "limits"@, 0);
    lemma_not_prefixed("cores.maijie_l7.cooling_mode"@, "logging"@, 0);
    reveal_strlit("pools.strategy");
    lemma_not_prefixed("pools.strategy"@, "performance"@, 1);
    lemma_not_prefixed("pools.strategy"@, "limits"@, 0);
    lemma_not_prefixed("pools.strategy"@, "logging"@, 0);
    reveal_strlit("pools.failover_timeout");
    lemma_not_prefixed("pools.failover_timeout"@, "performance"@, 1);
    lemma_not_prefixed("pools.failover_timeout"@, "limits"@, 0);
    lemma_not_prefixed("pools.failover_timeout"@, "logging"@, 0);
    reveal_strlit("pools.retry_interval");
    lemma_not_prefixed("pools.retry_interval"@, "performance"@, 1);
    lemma_not_prefixed("pools.retry_interval"@, "limits"@, 0);
    lemma_not_prefixed("pools.retry_interval"@, "logging"@, 0);
    reveal_strlit("pools.pools");
    lemma_not_prefixed("pools.pools"@, "performance"@, 1);
    lemma_not_prefixed("pools.pools"@, "limits"@, 0);
    lemma_not_prefixed("pools.pools"@, "logging"@, 0);
    reveal_strlit("devices.auto_detect");
    lemma_not_prefixed("devices.auto_detect"@, "performance"@, 0);
    lemma_not_prefixed("devices.auto_detect"@, "limits"@, 0);
    lemma_not_prefixed("devices.auto_detect"@, "logging"@, 0);
    reveal_strlit("devices.scan_interval");
    lemma_not_prefixed("devices.scan_interval"@, "performance"@, 0);
    lemma_not_prefixed("devices.scan_interval"@, "limits"@, 0);
    lemma_not_prefixed("devices.scan_interval"@, "logging"@, 0);
    reveal_strlit("api.enabled");
    lemma_not_prefixed("api.enabled"@, "performance"@, 0);
    lemma_not_prefixed("api.enabled"@, "limits"@, 0);
    lemma_not_prefixed("api.enabled"@, "logging"@, 0);
    reveal_strlit("api.bind_address");
    lemma_not_prefixed("api.bind_address"@, "performance"@, 0);
    lemma_not_prefixed("api.bind_address"@, "limits"@, 0);
    lemma_not_prefixed("api.bind_address"@, "logging"@, 0);
    reveal_strlit("api.port");
    lemma_not_prefixed("api.port"@, "performance"@, 0);
    lemma_not_prefixed("api.port"@, "limits"@, 0);
    lemma_not_prefixed("api.port"@, "logging"@, 0);
    reveal_strlit("monitoring.enabled");
    lemma_not_prefixed("monitoring.enabled"@, "performance"@, 0);
    lemma_not_prefixed("monitoring.enabled"@, "limits"@, 0);
    lemma_not_prefixed("monitoring.enabled"@, "logging"@, 0);
    reveal_strlit("monitoring.metrics_interval");
    lemma_not_prefixed("monitoring.metrics_interval"@, "performance"@, 0);
    lemma_not_prefixed("monitoring.metrics_interval"@, "limits"@, 0);
    lemma_not_prefixed("monitoring.metrics_interval"@, "logging"@, 0);
    reveal_strlit("monitoring.web_port");
    lemma_not_prefixed("monitoring.web_port"@, "performance"@, 0);
    lemma_not_prefixed("monitoring.web_port"@, "limits"@, 0);
    lemma_not_prefixed("monitoring.web_port"@, "logging"@, 0);
    reveal_strlit("monitoring.alert_thresholds");
    lemma_not_prefixed("monitoring.alert_thresholds"@, "performance"@, 0);
    lemma_not_prefixed("monitoring.alert_thresholds"@, "limits"@, 0);
    lemma_not_prefixed("monitoring.alert_thresholds"@, "logging"@, 0);
    reveal_strlit("hashmeter.enabled");
    lemma_not_prefixed("hashmeter.enabled"@, "performance"@, 0);
    lemma_not_prefixed("hashmeter.enabled"@, "limits"@, 0);
    lemma_not_prefixed("hashmeter.enabled"@, "logging"@, 0);
    reveal_strlit("hashmeter.log_interval");
    lemma_not_prefixed("hashmeter.log_interval"@, "performance"@, 0);
    lemma_not_prefixed("hashmeter.log_interval"@, "limits"@, 0);
    lemma_not_prefixed("hashmeter.log_interval"@, "logging"@, 0);
    reveal_strlit("hashmeter.per_device_stats");
    lemma_not_prefixed("hashmeter.per_device_stats"@, "performance"@, 0);
    lemma_not_prefixed("hashmeter.per_device_stats"@, "limits"@, 0);
    lemma_not_prefixed("hashmeter.per_device_stats"@, "logging"@, 0);
    reveal_strlit("hashmeter.console_output");
    lemma_not_prefixed("hashmeter.console_output"@, "performance"@, 0);
    lemma_not_prefixed("hashmeter.console_output"@, "limits"@, 0);
    lemma_not_prefixed("hashmeter.console_output"@, "logging"@, 0);
    reveal_strlit("hashmeter.beautiful_output");
    lemma_not_prefixed("hashmeter.beautiful_output"@, "performance"@, 0);
    lemma_not_prefixed("hashmeter.beautiful_output"@, "limits"@, 0);
    lemma_not_prefixed("hashmeter.beautiful_output"@, "logging"@, 0);
    reveal_strlit("hashmeter.hashrate_unit");
    lemma_not_prefixed("hashmeter.hashrate_unit"@, "performance"@, 0);
    lemma_not_prefixed("hashmeter.hashrate_unit"@, "limits"@, 0);
    lemma_not_prefixed("hashmeter.hashrate_unit"@, "logging"@, 0);
    reveal_strlit("web.enabled");
    lemma_not_prefixed("web.enabled"@, "performance"@, 0);
    lemma_not_prefixed("web.enabled"@, "limits"@, 0);
    lemma_not_prefixed("web.enabled"@, "logging"@, 0);
    reveal_strlit("web.port");
    lemma_not_prefixed("web.port"@, "performance"@, 0);
    lemma_not_prefixed("web.port"@, "limits"@, 0);
    lemma_not_prefixed("web.port"@, "logging"@, 0);
    reveal_strlit("web.bind_address");
    lemma_not_prefixed("web.bind_address"@, "performance"@, 0);
    lemma_not_prefixed("web.bind_address"@, "limits"@, 0);
    lemma_not_prefixed("web.bind_address"@, "logging"@, 0);
    reveal_strlit("web.static_path");
    lemma_not_prefixed("web.static_path"@, "performance"@, 0);
    lemma_not_prefixed("web.static_path"@, "limits"@, 0);
    lemma_not_prefixed("web.static_path"@, "logging"@, 0);
    reveal_strlit("web.static_files_dir");
    lemma_not_prefixed("web.static_files_dir"@, "performance"@, 0);
    lemma_not_prefixed("web.static_files_dir"@, "limits"@, 0);
    lemma_not_prefixed("web.static_files_dir"@, "logging"@, 0);
    reveal_strlit("web.template_dir");
    lemma_not_prefixed("web.template_dir"@, "performance"@, 0);
    lemma_not_prefixed("web.template_dir"@, "limits"@, 0);
    lemma_not_prefixed("web.template_dir"@, "logging"@, 0);
}

/// Whatever order the valid paths are held in, none of them is a known
/// ineffective setting: no member of the set of valid paths lies under
/// `performance`, `limits` or `logging`.
pub proof fn law_no_valid_path_is_fake()
    ensures
        forall|p: Seq<char>| #[trigger] valid_path_list().to_set().contains(p) ==> !is_fake_path(p),
{
    law_valid_paths_are_not_fake();
    assert forall|p: Seq<char>| #[trigger] valid_path_list().to_set().contains(p) implies !is_fake_path(p) by {
        let k = choose|k: int| 0 <= k < valid_path_list().len() && valid_path_list()[k] == p;
        assert(!is_fake_path(valid_path_list()[k]));
    }
}

} // verus!
