//! Alerts and their bookkeeping: the active alerts by key, the bounded
//! history, and counts by severity.

use vstd::prelude::*;
use vstd::string::StrSliceExecFns;
use crate::logging::formatter::decimal;

verus! {

/// What an alert is about.
#[derive(Debug, Clone, Copy, PartialEq, Eq)]
pub enum AlertType {
    System,
    Device,
    Pool,
    Mining,
}

/// How serious an alert is.
#[derive(Debug, Clone, Copy, PartialEq, Eq)]
pub enum AlertSeverity {
    Info,
    Warning,
    Error,
    Critical,
}

/// Where an alert stands.
#[derive(Debug, Clone, Copy, PartialEq, Eq)]
pub enum AlertStatus {
    Active,
    Resolved,
    Acknowledged,
    Suppressed,
}


/// `s` in lower case, as `str::to_lowercase` gives it.
pub uninterp spec fn lower_case(s: Seq<char>) -> Seq<char>;

/// `str::to_lowercase` of std: `s` in lower case.
#[verifier::external_body]
fn to_lower(s: &str) -> (r: String)
    ensures
        r@ == lower_case(s@),
{
    s.to_lowercase()
}

/// An alert. Times are milliseconds since the Unix epoch; the observed value
/// and its threshold are bit patterns of double-precision values.
#[derive(Debug)]
pub struct Alert {
    pub id: String,
    pub alert_type: AlertType,
    pub severity: AlertSeverity,
    pub status: AlertStatus,
    pub title: String,
    pub description: String,
    pub source: String,
    pub labels: Vec<(String, String)>,
    pub triggered_at: u64,
    pub resolved_at: Option<u64>,
    pub acknowledged_at: Option<u64>,
    pub value_bits: Option<u64>,
    pub threshold_bits: Option<u64>,
}

/// An alert with its texts as character sequences.
pub struct AlertView {
    pub id: Seq<char>,
    pub alert_type: AlertType,
    pub severity: AlertSeverity,
    pub status: AlertStatus,
    pub title: Seq<char>,
    pub description: Seq<char>,
    pub source: Seq<char>,
    pub labels: Seq<(Seq<char>, Seq<char>)>,
    pub triggered_at: u64,
    pub resolved_at: Option<u64>,
    pub acknowledged_at: Option<u64>,
    pub value_bits: Option<u64>,
    pub threshold_bits: Option<u64>,
}

/// The texts of a list of labels.
pub open spec fn label_views(labels: Seq<(String, String)>) -> Seq<(Seq<char>, Seq<char>)> {
    labels.map_values(|l: (String, String)| (l.0@, l.1@))
}

impl View for Alert {
    type V = AlertView;

    open spec fn view(&self) -> AlertView {
        AlertView {
            id: self.id@,
            alert_type: self.alert_type,
            severity: self.severity,
            status: self.status,
            title: self.title@,
            description: self.description@,
            source: self.source@,
            labels: label_views(self.labels@),
            triggered_at: self.triggered_at,
            resolved_at: self.resolved_at,
            acknowledged_at: self.acknowledged_at,
            value_bits: self.value_bits,
            threshold_bits: self.threshold_bits,
        }
    }
}

/// A copy of a list of labels.
fn clone_labels(labels: &Vec<(String, String)>) -> (r: Vec<(String, String)>)
    ensures
        label_views(r@) == label_views(labels@),
{
    let mut r: Vec<(String, String)> = Vec::new();
    let mut i: usize = 0;
    while i < labels.len()
        invariant
            i <= labels@.len(),
            label_views(r@) == label_views(labels@.subrange(0, i as int)),
        decreases labels@.len() - i,
    {
        let ghost before = r@;
        let entry = (labels[i].0.clone(), labels[i].1.clone());
        r.push(entry);
        assert(labels@.subrange(0, i + 1) =~= labels@.subrange(0, i as int).push(labels@[i as int]));
        assert(label_views(r@) =~= label_views(before).push((labels@[i as int].0@, labels@[i as int].1@)));
        assert(label_views(labels@.subrange(0, i + 1)) =~= label_views(labels@.subrange(0, i as int)).push(
            (labels@[i as int].0@, labels@[i as int].1@),
        ));
        i = i + 1;
    }
    assert(labels@.subrange(0, labels@.len() as int) =~= labels@);
    r
}

impl Clone for Alert {
    fn clone(&self) -> (r: Self)
        ensures
            r@ == self@,
    {
        Alert {
            id: self.id.clone(),
            alert_type: self.alert_type,
            severity: self.severity,
            status: self.status,
            title: self.title.clone(),
            description: self.description.clone(),
            source: self.source.clone(),
            labels: clone_labels(&self.labels),
            triggered_at: self.triggered_at,
            resolved_at: self.resolved_at,
            acknowledged_at: self.acknowledged_at,
            value_bits: self.value_bits,
            threshold_bits: self.threshold_bits,
        }
    }
}

/// The labels of a list whose key is not `key`, in order.
pub open spec fn without_key(labels: Seq<(Seq<char>, Seq<char>)>, key: Seq<char>) -> Seq<(Seq<char>, Seq<char>)>
    decreases labels.len(),
{
    if labels.len() == 0 {
        Seq::empty()
    } else if labels.last().0 == key {
        without_key(labels.drop_last(), key)
    } else {
        without_key(labels.drop_last(), key).push(labels.last())
    }
}

/// `s` with every space turned into an underscore.
pub open spec fn underscored(s: Seq<char>) -> Seq<char> {
    s.map_values(|c: char| if c == ' ' { '_' } else { c })
}

/// The key under which an alert is kept while active: its source, an
/// underscore, and its title with spaces as underscores, in lower case.
pub open spec fn alert_key(alert: AlertView) -> Seq<char> {
    alert.source + "_"@ + lower_case(underscored(alert.title))
}

/// `s` with every space turned into an underscore.
fn replace_spaces(s: &str) -> (r: String)
    ensures
        r@ == underscored(s@),
{
    let n = s.unicode_len();
    let mut r = String::new();
    let mut i: usize = 0;
    while i < n
        invariant
            n == s@.len(),
            i <= n,
            r@ == underscored(s@.subrange(0, i as int)),
        decreases n - i,
    {
        let c = s.get_char(i);
        if c == ' ' {
            r.append("_");
        } else {
            r.append(s.substring_char(i, i + 1));
        }
        assert(underscored(s@.subrange(0, i + 1)) =~= underscored(s@.subrange(0, i as int)).push(
            if c == ' ' { '_' } else { c },
        ));
        proof {
            reveal_strlit("_");
        }
        i = i + 1;
    }
    assert(s@.subrange(0, n as int) =~= s@);
    r
}

impl Alert {
    /// A new active alert raised now, with a fresh random identifier in its
    /// hyphenated text form, and no labels, values or later times.
    pub fn new(
        alert_type: AlertType,
        severity: AlertSeverity,
        title: String,
        description: String,
        source: String,
    ) -> (r: Self)
        ensures
            exists|v: u128| r.id@ == crate::device::id_text(v),
            r.alert_type == alert_type,
            r.severity == severity,
            r.status == AlertStatus::Active,
            r.title == title,
            r.description == description,
            r.source == source,
            r.labels@.len() == 0,
            r.resolved_at.is_none(),
            r.acknowledged_at.is_none(),
            r.value_bits.is_none(),
            r.threshold_bits.is_none(),
    {
        let v = crate::ids::new_uuid();
        let id = crate::device::id_string(v);
        Alert::new_at(id, alert_type, severity, title, description, source, crate::clock::now_millis())
    }

    /// A new active alert with identifier `id`, raised at time `now`, with
    /// no labels, values or later times.
    pub fn new_at(
        id: String,
        alert_type: AlertType,
        severity: AlertSeverity,
        title: String,
        description: String,
        source: String,
        now: u64,
    ) -> (r: Self)
        ensures
            r.id == id,
            r.alert_type == alert_type,
            r.severity == severity,
            r.status == AlertStatus::Active,
            r.title == title,
            r.description == description,
            r.source == source,
            r.labels@.len() == 0,
            r.triggered_at == now,
            r.resolved_at.is_none(),
            r.acknowledged_at.is_none(),
            r.value_bits.is_none(),
            r.threshold_bits.is_none(),
    {
        Alert {
            id,
            alert_type,
            severity,
            status: AlertStatus::Active,
            title,
            description,
            source,
            labels: Vec::new(),
            triggered_at: now,
            resolved_at: None,
            acknowledged_at: None,
            value_bits: None,
            threshold_bits: None,
        }
    }

    /// The alert with the label `key` set to `value`: an earlier value of
    /// the key is replaced, the other labels stay in their order.
    pub fn with_label(self, key: String, value: String) -> (r: Self)
        ensures
            r@ == (AlertView { labels: r@.labels, ..self@ }),
            r@.labels == without_key(self@.labels, key@).push((key@, value@)),
    {
        let mut a = self;
        let mut kept: Vec<(String, String)> = Vec::new();
        let mut i: usize = 0;
        while i < a.labels.len()
            invariant
                a@ == self@,
                i <= a.labels@.len(),
                label_views(kept@) == without_key(label_views(a.labels@).subrange(0, i as int), key@),
            decreases a.labels@.len() - i,
        {
            let ghost prefix = label_views(a.labels@).subrange(0, i as int);
            assert(label_views(a.labels@).subrange(0, i + 1).drop_last() =~= prefix);
            if !crate::text::str_equal(a.labels[i].0.as_str(), key.as_str()) {
                let entry = (a.labels[i].0.clone(), a.labels[i].1.clone());
                kept.push(entry);
                assert(label_views(kept@) =~= without_key(label_views(a.labels@).subrange(0, i + 1), key@));
            }
            i = i + 1;
        }
        assert(label_views(a.labels@).subrange(0, a.labels@.len() as int) =~= label_views(a.labels@));
        kept.push((key, value));
        assert(label_views(kept@) =~= without_key(self@.labels, key@).push((key@, value@)));
        a.labels = kept;
        a
    }

    /// The alert with an observed value and its threshold, as bit patterns.
    pub fn with_values(self, value_bits: u64, threshold_bits: u64) -> (r: Self)
        ensures
            r@ == (AlertView { value_bits: Some(value_bits), threshold_bits: Some(threshold_bits), ..self@ }),
    {
        let mut a = self;
        a.value_bits = Some(value_bits);
        a.threshold_bits = Some(threshold_bits);
        a
    }

    /// Resolves the alert at time `now`.
    pub fn resolve_at(&mut self, now: u64)
        ensures
            final(self)@ == (AlertView { status: AlertStatus::Resolved, resolved_at: Some(now), ..old(self)@ }),
    {
        self.status = AlertStatus::Resolved;
        self.resolved_at = Some(now);
    }

    /// Acknowledges the alert at time `now`.
    pub fn acknowledge_at(&mut self, now: u64)
        ensures
            final(self)@ == (AlertView { status: AlertStatus::Acknowledged, acknowledged_at: Some(now), ..old(self)@ }),
    {
        self.status = AlertStatus::Acknowledged;
        self.acknowledged_at = Some(now);
    }

    /// Suppresses the alert.
    pub fn suppress(&mut self)
        ensures
            final(self)@ == (AlertView { status: AlertStatus::Suppressed, ..old(self)@ }),
    {
        self.status = AlertStatus::Suppressed;
    }

    /// Milliseconds from the alert to its resolution, or to `now` while it
    /// is unresolved; zero when that end comes before the alert.
    pub fn get_duration_at(&self, now: u64) -> (r: u64)
        ensures
            ({
                let end = match self.resolved_at {
                    Some(t) => t,
                    None => now,
                };
                r == (if end >= self.triggered_at { end - self.triggered_at } else { 0 })
            }),
    {
        let end = match self.resolved_at {
            Some(t) => t,
            None => now,
        };
        if end >= self.triggered_at {
            end - self.triggered_at
        } else {
            0
        }
    }

    /// Whether the alert is active.
    pub fn is_active(&self) -> (r: bool)
        ensures
            r == (self.status == AlertStatus::Active),
    {
        match self.status {
            AlertStatus::Active => true,
            _ => false,
        }
    }

    /// The key under which the alert is kept while active.
    pub fn key(&self) -> (r: String)
        ensures
            r@ == alert_key(self@),
    {
        let mut k = self.source.clone();
        k.append("_");
        let spaced = replace_spaces(self.title.as_str());
        let lowered = to_lower(spaced.as_str());
        k.append(lowered.as_str());
        k
    }
}


/// The most alerts the history keeps.
pub const MAX_ALERT_HISTORY: usize = 1000;

/// `history` after `x` is added, keeping the latest `max`.
pub open spec fn push_bounded<A>(history: Seq<A>, x: A, max: nat) -> Seq<A> {
    let pushed = history.push(x);
    if pushed.len() > max {
        pushed.subrange(pushed.len() - max, pushed.len() as int)
    } else {
        pushed
    }
}

/// `history` after each of `xs` is added in turn, keeping the latest `max`.
pub open spec fn push_all_bounded<A>(history: Seq<A>, xs: Seq<A>, max: nat) -> Seq<A>
    decreases xs.len(),
{
    if xs.len() == 0 {
        history
    } else {
        push_bounded(push_all_bounded(history, xs.drop_last(), max), xs.last(), max)
    }
}

/// The views of a list of alerts.
pub open spec fn alert_views(alerts: Seq<Alert>) -> Seq<AlertView> {
    alerts.map_values(|a: Alert| a@)
}

/// No two alerts share a key.
pub open spec fn distinct_keys(alerts: Seq<AlertView>) -> bool {
    forall|i: int, j: int| 0 <= i < alerts.len() && 0 <= j < alerts.len() && i != j
        ==> alert_key(#[trigger] alerts[i]) != alert_key(#[trigger] alerts[j])
}

/// The position of the alert kept under `key`, if any.
pub open spec fn key_index(alerts: Seq<AlertView>, key: Seq<char>) -> Option<int> {
    if exists|i: int| 0 <= i < alerts.len() && alert_key(#[trigger] alerts[i]) == key {
        Some(choose|i: int| 0 <= i < alerts.len() && alert_key(#[trigger] alerts[i]) == key)
    } else {
        None
    }
}

/// The position of the first alert with identifier `id`, if any.
pub open spec fn id_index(alerts: Seq<AlertView>, id: Seq<char>) -> Option<int> {
    if exists|i: int| 0 <= i < alerts.len() && (#[trigger] alerts[i]).id == id
        && forall|j: int| 0 <= j < i ==> alerts[j].id != id {
        Some(choose|i: int| 0 <= i < alerts.len() && (#[trigger] alerts[i]).id == id
            && forall|j: int| 0 <= j < i ==> alerts[j].id != id)
    } else {
        None
    }
}

/// With distinct keys, the alert found under a key is the one at its
/// position.
proof fn lemma_key_index(alerts: Seq<AlertView>, key: Seq<char>, i: int)
    requires
        distinct_keys(alerts),
        0 <= i < alerts.len(),
        alert_key(alerts[i]) == key,
    ensures
        key_index(alerts, key) == Some(i),
{
    let j = choose|j: int| 0 <= j < alerts.len() && alert_key(#[trigger] alerts[j]) == key;
    if j != i {
        assert(alert_key(alerts[i]) != alert_key(alerts[j]));
    }
}

/// The alerts that are not active, in order.
pub open spec fn inactive_of(alerts: Seq<AlertView>) -> Seq<AlertView> {
    alerts.filter(|a: AlertView| a.status != AlertStatus::Active)
}

/// The alerts that are active, in order.
pub open spec fn active_of(alerts: Seq<AlertView>) -> Seq<AlertView> {
    alerts.filter(|a: AlertView| a.status == AlertStatus::Active)
}

/// `a` resolved at time `now`.
pub open spec fn resolved_view(a: AlertView, now: u64) -> AlertView {
    AlertView { status: AlertStatus::Resolved, resolved_at: Some(now), ..a }
}

/// How many of `alerts` have severity `s`.
pub open spec fn severity_count(alerts: Seq<AlertView>, s: AlertSeverity) -> nat {
    alerts.filter(|a: AlertView| a.severity == s).len()
}

/// The active alerts by severity.
#[derive(Debug, Clone, Copy, PartialEq, Eq)]
pub struct SeverityCounts {
    pub info: u32,
    pub warning: u32,
    pub error: u32,
    pub critical: u32,
}

/// Counts of the alerts.
#[derive(Debug, Clone, Copy, PartialEq, Eq)]
pub struct AlertStats {
    pub active_alerts: usize,
    pub total_alerts: usize,
    pub severity_counts: SeverityCounts,
}

/// Keeps the active alerts, one per key, and the latest alerts raised or
/// closed.
pub struct AlertManager {
    active_alerts: Vec<Alert>,
    alert_history: Vec<Alert>,
    thresholds: crate::config::AlertThresholds,
}

impl AlertManager {
    /// The active alerts, in the order they were raised.
    pub closed spec fn active(&self) -> Seq<AlertView> {
        alert_views(self.active_alerts@)
    }

    /// The alerts raised or closed, oldest first.
    pub closed spec fn history(&self) -> Seq<AlertView> {
        alert_views(self.alert_history@)
    }

    /// The thresholds the manager was made with.
    pub closed spec fn limits(&self) -> crate::config::AlertThresholds {
        self.thresholds
    }

    /// One active alert per key, and a history within its bound.
    pub closed spec fn well_formed(&self) -> bool {
        &&& distinct_keys(self.active())
        &&& self.alert_history@.len() <= MAX_ALERT_HISTORY
    }

    /// A manager with no alert.
    pub fn new(thresholds: crate::config::AlertThresholds) -> (r: Self)
        ensures
            r.well_formed(),
            r.active() == Seq::<AlertView>::empty(),
            r.history() == Seq::<AlertView>::empty(),
            r.limits() == thresholds,
    {
        let r = AlertManager { active_alerts: Vec::new(), alert_history: Vec::new(), thresholds };
        assert(r.active() =~= Seq::<AlertView>::empty());
        assert(r.history() =~= Seq::<AlertView>::empty());
        r
    }

    /// The position of the active alert kept under `key`.
    fn find(&self, key: &str) -> (r: Option<usize>)
        requires
            self.well_formed(),
        ensures
            match r {
                Some(i) => key_index(self.active(), key@) == Some(i as int),
                None => key_index(self.active(), key@) is None,
            },
    {
        let mut i: usize = 0;
        while i < self.active_alerts.len()
            invariant
                self.well_formed(),
                i <= self.active_alerts@.len(),
                forall|j: int| 0 <= j < i ==> alert_key(#[trigger] self.active()[j]) != key@,
            decreases self.active_alerts@.len() - i,
        {
            let k = self.active_alerts[i].key();
            if crate::text::str_equal(k.as_str(), key) {
                proof {
                    lemma_key_index(self.active(), key@, i as int);
                }
                return Some(i);
            }
            i = i + 1;
        }
        None
    }

    /// Adds an alert to the history, dropping the oldest past the bound.
    fn add_to_history(&mut self, alert: Alert)
        requires
            old(self).alert_history@.len() <= MAX_ALERT_HISTORY,
        ensures
            final(self).history() == push_bounded(old(self).history(), alert@, MAX_ALERT_HISTORY as nat),
            final(self).alert_history@.len() <= MAX_ALERT_HISTORY,
            final(self).active_alerts == old(self).active_alerts,
            final(self).thresholds == old(self).thresholds,
    {
        let ghost before = self.alert_history@;
        self.alert_history.push(alert);
        assert(alert_views(self.alert_history@) =~= alert_views(before).push(alert@));
        if self.alert_history.len() > MAX_ALERT_HISTORY {
            let ghost pushed = self.alert_history@;
            self.alert_history.remove(0);
            assert(alert_views(self.alert_history@) =~= push_bounded(alert_views(before), alert@, MAX_ALERT_HISTORY as nat));
        }
    }

    /// Takes in a raised alert: an active alert under the same key takes its
    /// value and time, otherwise the alert becomes active; either way the
    /// alert goes to the history.
    pub fn process_alert(&mut self, alert: Alert)
        requires
            old(self).well_formed(),
        ensures
            final(self).well_formed(),
            final(self).limits() == old(self).limits(),
            match key_index(old(self).active(), alert_key(alert@)) {
                Some(i) => final(self).active() == old(self).active().update(
                    i,
                    AlertView {
                        value_bits: alert@.value_bits,
                        triggered_at: alert@.triggered_at,
                        ..old(self).active()[i]
                    },
                ),
                None => final(self).active() == old(self).active().push(alert@),
            },
            final(self).history() == push_bounded(old(self).history(), alert@, MAX_ALERT_HISTORY as nat),
    {
        let key = alert.key();
        match self.find(key.as_str()) {
            Some(i) => {
                let ghost before = self.active();
                let mut existing = self.active_alerts.remove(i);
                existing.value_bits = alert.value_bits;
                existing.triggered_at = alert.triggered_at;
                self.active_alerts.insert(i, existing);
                assert(self.active() =~= before.update(
                    i as int,
                    AlertView { value_bits: alert@.value_bits, triggered_at: alert@.triggered_at, ..before[i as int] },
                ));
                assert(distinct_keys(self.active())) by {
                    assert forall|a: int| 0 <= a < self.active().len() implies alert_key(#[trigger] self.active()[a])
                        == alert_key(before[a]) by {}
                }
            },
            None => {
                let ghost before = self.active();
                let copy = alert.clone();
                self.active_alerts.push(copy);
                assert(self.active() =~= before.push(alert@));
                assert(distinct_keys(self.active())) by {
                    assert forall|a: int, b: int| 0 <= a < self.active().len() && 0 <= b < self.active().len() && a != b
                        implies alert_key(#[trigger] self.active()[a]) != alert_key(#[trigger] self.active()[b]) by {
                        if a == before.len() as int {
                            assert(alert_key(before[b]) != key@);
                        } else if b == before.len() as int {
                            assert(alert_key(before[a]) != key@);
                        }
                    }
                }
            },
        }
        self.add_to_history(alert);
    }

    /// Resolves the active alert kept under `key` at time `now`: it leaves
    /// the active alerts and goes to the history. Another key changes
    /// nothing.
    pub fn resolve_alert_at(&mut self, key: &str, now: u64)
        requires
            old(self).well_formed(),
        ensures
            final(self).well_formed(),
            final(self).limits() == old(self).limits(),
            match key_index(old(self).active(), key@) {
                Some(i) => final(self).active() == old(self).active().remove(i)
                    && final(self).history() == push_bounded(
                        old(self).history(),
                        resolved_view(old(self).active()[i], now),
                        MAX_ALERT_HISTORY as nat,
                    ),
                None => final(self).active() == old(self).active() && final(self).history() == old(self).history(),
            },
    {
        match self.find(key) {
            Some(i) => {
                let ghost before = self.active();
                let mut alert = self.active_alerts.remove(i);
                assert(self.active() =~= before.remove(i as int));
                assert(distinct_keys(self.active())) by {
                    assert forall|a: int, b: int| 0 <= a < self.active().len() && 0 <= b < self.active().len() && a != b
                        implies alert_key(#[trigger] self.active()[a]) != alert_key(#[trigger] self.active()[b]) by {
                        let a0 = if a < i { a } else { a + 1 };
                        let b0 = if b < i { b } else { b + 1 };
                        assert(self.active()[a] == before[a0]);
                        assert(self.active()[b] == before[b0]);
                    }
                }
                alert.resolve_at(now);
                self.add_to_history(alert);
            },
            None => {},
        }
    }

    /// The position of the first active alert with identifier `id`.
    fn find_id(&self, id: &str) -> (r: Option<usize>)
        ensures
            match r {
                Some(i) => id_index(self.active(), id@) == Some(i as int),
                None => id_index(self.active(), id@) is None,
            },
    {
        let mut i: usize = 0;
        while i < self.active_alerts.len()
            invariant
                i <= self.active_alerts@.len(),
                forall|j: int| 0 <= j < i ==> self.active()[j].id != id@,
            decreases self.active_alerts@.len() - i,
        {
            if crate::text::str_equal(self.active_alerts[i].id.as_str(), id) {
                proof {
                    assert(self.active()[i as int].id == id@);
                    let k = choose|k: int| 0 <= k < self.active().len() && (#[trigger] self.active()[k]).id == id@
                        && forall|j: int| 0 <= j < k ==> self.active()[j].id != id@;
                    if k < i {
                    } else if k > i {
                        assert(self.active()[i as int].id != id@);
                    }
                }
                return Some(i);
            }
            proof {
                assert(self.active()[i as int].id != id@);
            }
            i = i + 1;
        }
        None
    }

    /// Resolves at time `now` the first active alert with identifier `id`:
    /// it leaves the active alerts and enters the history, resolved. Nothing
    /// changes when no active alert has that identifier.
    pub fn resolve_alert_by_id_at(&mut self, id: &str, now: u64)
        requires
            old(self).well_formed(),
        ensures
            final(self).well_formed(),
            final(self).limits() == old(self).limits(),
            match id_index(old(self).active(), id@) {
                Some(i) => final(self).active() == old(self).active().remove(i)
                    && final(self).history() == push_bounded(
                        old(self).history(),
                        resolved_view(old(self).active()[i], now),
                        MAX_ALERT_HISTORY as nat,
                    ),
                None => final(self).active() == old(self).active() && final(self).history() == old(self).history(),
            },
    {
        match self.find_id(id) {
            Some(i) => {
                let ghost before = self.active();
                let mut alert = self.active_alerts.remove(i);
                assert(self.active() =~= before.remove(i as int));
                assert(distinct_keys(self.active())) by {
                    assert forall|a: int, b: int| 0 <= a < self.active().len() && 0 <= b < self.active().len() && a != b
                        implies alert_key(#[trigger] self.active()[a]) != alert_key(#[trigger] self.active()[b]) by {
                        let a0 = if a < i { a } else { a + 1 };
                        let b0 = if b < i { b } else { b + 1 };
                        assert(self.active()[a] == before[a0]);
                        assert(self.active()[b] == before[b0]);
                    }
                }
                alert.resolve_at(now);
                self.add_to_history(alert);
            },
            None => {},
        }
    }

    /// Acknowledges at time `now` the first active alert with identifier
    /// `id`; nothing changes when no active alert has that identifier.
    pub fn acknowledge_alert_by_id_at(&mut self, id: &str, now: u64)
        requires
            old(self).well_formed(),
        ensures
            final(self).well_formed(),
            final(self).limits() == old(self).limits(),
            final(self).history() == old(self).history(),
            match id_index(old(self).active(), id@) {
                Some(i) => final(self).active() == old(self).active().update(
                    i,
                    AlertView {
                        status: AlertStatus::Acknowledged,
                        acknowledged_at: Some(now),
                        ..old(self).active()[i]
                    },
                ),
                None => final(self).active() == old(self).active(),
            },
    {
        match self.find_id(id) {
            Some(i) => {
                let ghost before = self.active();
                let mut alert = self.active_alerts.remove(i);
                alert.acknowledge_at(now);
                self.active_alerts.insert(i, alert);
                assert(self.active() =~= before.update(
                    i as int,
                    AlertView { status: AlertStatus::Acknowledged, acknowledged_at: Some(now), ..before[i as int] },
                ));
                assert(distinct_keys(self.active())) by {
                    assert forall|a: int| 0 <= a < self.active().len() implies alert_key(#[trigger] self.active()[a])
                        == alert_key(before[a]) by {}
                }
            },
            None => {},
        }
    }

    /// Acknowledges the active alert kept under `key` at time `now`.
    pub fn acknowledge_alert_at(&mut self, key: &str, now: u64)
        requires
            old(self).well_formed(),
        ensures
            final(self).well_formed(),
            final(self).limits() == old(self).limits(),
            final(self).history() == old(self).history(),
            match key_index(old(self).active(), key@) {
                Some(i) => final(self).active() == old(self).active().update(
                    i,
                    AlertView {
                        status: AlertStatus::Acknowledged,
                        acknowledged_at: Some(now),
                        ..old(self).active()[i]
                    },
                ),
                None => final(self).active() == old(self).active(),
            },
    {
        match self.find(key) {
            Some(i) => {
                let ghost before = self.active();
                let mut alert = self.active_alerts.remove(i);
                alert.acknowledge_at(now);
                self.active_alerts.insert(i, alert);
                assert(self.active() =~= before.update(
                    i as int,
                    AlertView { status: AlertStatus::Acknowledged, acknowledged_at: Some(now), ..before[i as int] },
                ));
                assert(distinct_keys(self.active())) by {
                    assert forall|a: int| 0 <= a < self.active().len() implies alert_key(#[trigger] self.active()[a])
                        == alert_key(before[a]) by {}
                }
            },
            None => {},
        }
    }

    /// Copies of the active alerts.
    pub fn get_active_alerts(&self) -> (r: Vec<Alert>)
        ensures
            alert_views(r@) == self.active(),
    {
        let mut r: Vec<Alert> = Vec::new();
        let mut i: usize = 0;
        while i < self.active_alerts.len()
            invariant
                i <= self.active_alerts@.len(),
                alert_views(r@) == self.active().subrange(0, i as int),
            decreases self.active_alerts@.len() - i,
        {
            let copy = self.active_alerts[i].clone();
            let ghost before = r@;
            r.push(copy);
            assert(alert_views(r@) =~= alert_views(before).push(self.active()[i as int]));
            assert(alert_views(r@) =~= self.active().subrange(0, i + 1));
            i = i + 1;
        }
        assert(self.active().subrange(0, self.active().len() as int) =~= self.active());
        r
    }

    /// The history, oldest first.
    pub fn get_alert_history(&self) -> (r: &Vec<Alert>)
        ensures
            alert_views(r@) == self.history(),
    {
        &self.alert_history
    }

    /// The number of active alerts, of alerts in the history, and of active
    /// alerts by severity.
    pub fn get_alert_stats(&self) -> (r: AlertStats)
        requires
            self.active().len() <= u32::MAX,
        ensures
            r.active_alerts == self.active().len(),
            r.total_alerts == self.history().len(),
            r.severity_counts.info == severity_count(self.active(), AlertSeverity::Info),
            r.severity_counts.warning == severity_count(self.active(), AlertSeverity::Warning),
            r.severity_counts.error == severity_count(self.active(), AlertSeverity::Error),
            r.severity_counts.critical == severity_count(self.active(), AlertSeverity::Critical),
    {
        let mut counts = SeverityCounts { info: 0, warning: 0, error: 0, critical: 0 };
        let mut i: usize = 0;
        while i < self.active_alerts.len()
            invariant
                i <= self.active_alerts@.len(),
                self.active_alerts@.len() <= u32::MAX,
                counts.info == severity_count(self.active().subrange(0, i as int), AlertSeverity::Info),
                counts.warning == severity_count(self.active().subrange(0, i as int), AlertSeverity::Warning),
                counts.error == severity_count(self.active().subrange(0, i as int), AlertSeverity::Error),
                counts.critical == severity_count(self.active().subrange(0, i as int), AlertSeverity::Critical),
                counts.info + counts.warning + counts.error + counts.critical == i,
            decreases self.active_alerts@.len() - i,
        {
            let ghost prefix = self.active().subrange(0, i as int);
            let ghost next = self.active().subrange(0, i + 1);
            assert(next.drop_last() =~= prefix);
            assert(next.last() == self.active_alerts@[i as int]@);
            proof {
                next.filter_lemma(|a: AlertView| a.severity == AlertSeverity::Info);
                reveal(Seq::filter);
            }
            match self.active_alerts[i].severity {
                AlertSeverity::Info => counts.info = counts.info + 1,
                AlertSeverity::Warning => counts.warning = counts.warning + 1,
                AlertSeverity::Error => counts.error = counts.error + 1,
                AlertSeverity::Critical => counts.critical = counts.critical + 1,
            }
            i = i + 1;
        }
        assert(self.active().subrange(0, self.active_alerts@.len() as int) =~= self.active());
        AlertStats {
            active_alerts: self.active_alerts.len(),
            total_alerts: self.alert_history.len(),
            severity_counts: counts,
        }
    }

    /// Closes the alerts that are no longer active: each is resolved at time
    /// `now` and goes to the history, in order; the active ones stay.
    pub fn cleanup_resolved_alerts_at(&mut self, now: u64)
        requires
            old(self).well_formed(),
        ensures
            final(self).well_formed(),
            final(self).limits() == old(self).limits(),
            final(self).active() == active_of(old(self).active()),
            final(self).history() == push_all_bounded(
                old(self).history(),
                inactive_of(old(self).active()).map_values(|a: AlertView| resolved_view(a, now)),
                MAX_ALERT_HISTORY as nat,
            ),
    {
        let mut kept: Vec<Alert> = Vec::new();
        let mut taken: Vec<Alert> = Vec::new();
        std::mem::swap(&mut taken, &mut self.active_alerts);
        let ghost all = alert_views(taken@);
        assert(all == old(self).active());
        let mut i: usize = 0;
        while i < taken.len()
            invariant
                all == alert_views(taken@),
                all == old(self).active(),
                distinct_keys(all),
                self.thresholds == old(self).thresholds,
                self.alert_history@.len() <= MAX_ALERT_HISTORY,
                i <= taken@.len(),
                alert_views(kept@) == active_of(all.subrange(0, i as int)),
                distinct_keys(alert_views(kept@)),
                forall|k: int| 0 <= k < kept@.len() ==> exists|j: int| 0 <= j < i && #[trigger] alert_views(kept@)[k] == all[j],
                self.history() == push_all_bounded(
                    old(self).history(),
                    inactive_of(all.subrange(0, i as int)).map_values(|a: AlertView| resolved_view(a, now)),
                    MAX_ALERT_HISTORY as nat,
                ),
            decreases taken@.len() - i,
        {
            let ghost prefix = all.subrange(0, i as int);
            let ghost next = all.subrange(0, i + 1);
            assert(next.drop_last() =~= prefix);
            assert(next.last() == all[i as int]);
            proof {
                reveal(Seq::filter);
            }
            if taken[i].is_active() {
                let copy = taken[i].clone();
                let ghost before = kept@;
                kept.push(copy);
                assert(alert_views(kept@) =~= alert_views(before).push(all[i as int]));
                assert(inactive_of(next) =~= inactive_of(prefix));
                assert forall|k: int| 0 <= k < kept@.len() implies exists|j: int| 0 <= j < i + 1 && #[trigger] alert_views(kept@)[k] == all[j] by {
                    if k < before.len() {
                        assert(alert_views(kept@)[k] == alert_views(before)[k]);
                        let j = choose|j: int| 0 <= j < i && #[trigger] alert_views(before)[k] == all[j];
                        assert(alert_views(kept@)[k] == all[j]);
                    } else {
                        assert(alert_views(kept@)[k] == all[i as int]);
                    }
                }
                assert(distinct_keys(alert_views(kept@))) by {
                    assert forall|a: int, b: int| 0 <= a < kept@.len() && 0 <= b < kept@.len() && a != b
                        implies alert_key(#[trigger] alert_views(kept@)[a]) != alert_key(#[trigger] alert_views(kept@)[b]) by {
                        if a == before.len() as int {
                            let j = choose|j: int| 0 <= j < i && #[trigger] alert_views(before)[b] == all[j];
                            assert(alert_views(kept@)[b] == alert_views(before)[b]);
                            assert(alert_key(all[j]) != alert_key(all[i as int]));
                        } else if b == before.len() as int {
                            let j = choose|j: int| 0 <= j < i && #[trigger] alert_views(before)[a] == all[j];
                            assert(alert_views(kept@)[a] == alert_views(before)[a]);
                            assert(alert_key(all[j]) != alert_key(all[i as int]));
                        } else {
                            assert(alert_views(kept@)[a] == alert_views(before)[a]);
                            assert(alert_views(kept@)[b] == alert_views(before)[b]);
                        }
                    }
                }
            } else {
                let mut alert = taken[i].clone();
                alert.resolve_at(now);
                let ghost resolved = alert@;
                assert(inactive_of(next) =~= inactive_of(prefix).push(all[i as int]));
                assert(inactive_of(next).map_values(|a: AlertView| resolved_view(a, now)) =~= inactive_of(prefix).map_values(
                    |a: AlertView| resolved_view(a, now),
                ).push(resolved));
                assert(inactive_of(next).map_values(|a: AlertView| resolved_view(a, now)).drop_last() =~= inactive_of(
                    prefix,
                ).map_values(|a: AlertView| resolved_view(a, now)));
                self.add_to_history(alert);
                assert forall|k: int| 0 <= k < kept@.len() implies exists|j: int| 0 <= j < i + 1 && #[trigger] alert_views(kept@)[k] == all[j] by {
                    let j = choose|j: int| 0 <= j < i && #[trigger] alert_views(kept@)[k] == all[j];
                }
            }
            i = i + 1;
        }
        assert(all.subrange(0, taken@.len() as int) =~= all);
        self.active_alerts = kept;
    }
}


/// The history never outgrows its bound and always ends with the alert
/// added last; below the bound nothing is dropped.
pub proof fn law_history_bounded(history: Seq<AlertView>, x: AlertView)
    requires
        history.len() <= MAX_ALERT_HISTORY,
    ensures
        push_bounded(history, x, MAX_ALERT_HISTORY as nat).len() <= MAX_ALERT_HISTORY,
        push_bounded(history, x, MAX_ALERT_HISTORY as nat).last() == x,
        history.len() < MAX_ALERT_HISTORY ==> push_bounded(history, x, MAX_ALERT_HISTORY as nat) == history.push(x),
{
}

/// Resolving an active alert by its identifier, when no other active alert
/// shares that identifier, finds that very alert: it is no longer among the
/// active alerts, and the history then ends with it, resolved at `now`.
pub proof fn law_resolve_by_id_closes_that_alert(
    active: Seq<AlertView>,
    history: Seq<AlertView>,
    i: int,
    now: u64,
)
    requires
        0 <= i < active.len(),
        forall|j: int| 0 <= j < active.len() && j != i ==> (#[trigger] active[j]).id != active[i].id,
    ensures
        id_index(active, active[i].id) == Some(i),
        forall|j: int| 0 <= j < active.remove(i).len() ==> (#[trigger] active.remove(i)[j]).id != active[i].id,
        push_bounded(history, resolved_view(active[i], now), MAX_ALERT_HISTORY as nat).last()
            == resolved_view(active[i], now),
        resolved_view(active[i], now).status == AlertStatus::Resolved,
        resolved_view(active[i], now).resolved_at == Some(now),
        resolved_view(active[i], now).id == active[i].id,
{
    let id = active[i].id;
    assert(exists|k: int| 0 <= k < active.len() && (#[trigger] active[k]).id == id
        && forall|j: int| 0 <= j < k ==> active[j].id != id) by {
        assert(forall|j: int| 0 <= j < i ==> active[j].id != id);
    }
    let k = choose|k: int| 0 <= k < active.len() && (#[trigger] active[k]).id == id
        && forall|j: int| 0 <= j < k ==> active[j].id != id;
    if k != i {
        assert(active[k].id != id);
    }
    assert forall|j: int| 0 <= j < active.remove(i).len() implies (#[trigger] active.remove(i)[j]).id != id by {
        let j0 = if j < i { j } else { j + 1 };
        assert(active.remove(i)[j] == active[j0]);
    }
}

/// A broken alert rule as the caller found it: the floating point
/// comparison decided, the reading and the threshold as bit patterns of
/// double-precision values, and the description written with them.
#[derive(Debug, Clone)]
pub struct RuleBreach {
    pub value_bits: u64,
    pub threshold_bits: u64,
    pub description: String,
}

/// The system rules that a reading breaks: temperature, CPU use and memory
/// use each above its threshold.
#[derive(Debug, Clone)]
pub struct SystemChecks {
    pub temperature: Option<RuleBreach>,
    pub cpu_usage: Option<RuleBreach>,
    pub memory_usage: Option<RuleBreach>,
}

/// The rules that a device reading breaks: temperature and error rate above
/// their thresholds, hash rate below its threshold.
#[derive(Debug, Clone)]
pub struct DeviceChecks {
    pub device_id: u32,
    pub temperature: Option<RuleBreach>,
    pub error_rate: Option<RuleBreach>,
    pub hashrate: Option<RuleBreach>,
}

/// An alert a broken rule raises, but for its random identifier.
pub struct PlannedAlert {
    pub alert_type: AlertType,
    pub severity: AlertSeverity,
    pub title: Seq<char>,
    pub description: Seq<char>,
    pub source: Seq<char>,
    pub labels: Seq<(Seq<char>, Seq<char>)>,
    pub value_bits: u64,
    pub threshold_bits: u64,
}

/// The alert planned for `breach`, if the rule is broken.
pub open spec fn plan_of(
    breach: Option<RuleBreach>,
    alert_type: AlertType,
    severity: AlertSeverity,
    title: Seq<char>,
    source: Seq<char>,
    labels: Seq<(Seq<char>, Seq<char>)>,
) -> Seq<PlannedAlert> {
    match breach {
        None => Seq::empty(),
        Some(b) => seq![PlannedAlert {
            alert_type,
            severity,
            title,
            description: b.description@,
            source,
            labels,
            value_bits: b.value_bits,
            threshold_bits: b.threshold_bits,
        }],
    }
}

/// The alerts a system reading raises, in the order the rules are checked.
pub open spec fn system_plan(c: SystemChecks) -> Seq<PlannedAlert> {
    plan_of(c.temperature, AlertType::System, AlertSeverity::Warning, "High System Temperature"@, "system"@,
        seq![("metric"@, "temperature"@)])
        + plan_of(c.cpu_usage, AlertType::System, AlertSeverity::Warning, "High CPU Usage"@, "system"@,
        seq![("metric"@, "cpu_usage"@)])
        + plan_of(c.memory_usage, AlertType::System, AlertSeverity::Warning, "High Memory Usage"@, "system"@,
        seq![("metric"@, "memory_usage"@)])
}

/// The labels of an alert about device `id` and `metric`.
pub open spec fn device_labels(id: u32, metric: Seq<char>) -> Seq<(Seq<char>, Seq<char>)> {
    seq![("device_id"@, decimal(id as nat)), ("metric"@, metric)]
}

/// The alerts a device reading raises, in the order the rules are checked.
pub open spec fn device_plan(c: DeviceChecks) -> Seq<PlannedAlert> {
    let source = "device_"@ + decimal(c.device_id as nat);
    plan_of(c.temperature, AlertType::Device, AlertSeverity::Error, "High Device Temperature"@, source,
        device_labels(c.device_id, "temperature"@))
        + plan_of(c.error_rate, AlertType::Device, AlertSeverity::Warning, "High Device Error Rate"@, source,
        device_labels(c.device_id, "error_rate"@))
        + plan_of(c.hashrate, AlertType::Device, AlertSeverity::Warning, "Low Device Hashrate"@, source,
        device_labels(c.device_id, "hashrate"@))
}

/// `a` is the alert `p` raised at `now`: active, with its values, and with
/// an identifier in uuid text form.
pub open spec fn raised_as(a: AlertView, p: PlannedAlert, now: u64) -> bool {
    &&& exists|v: u128| a.id == crate::device::id_text(v)
    &&& a.alert_type == p.alert_type
    &&& a.severity == p.severity
    &&& a.status == AlertStatus::Active
    &&& a.title == p.title
    &&& a.description == p.description
    &&& a.source == p.source
    &&& a.labels == p.labels
    &&& a.triggered_at == now
    &&& a.resolved_at is None
    &&& a.acknowledged_at is None
    &&& a.value_bits == Some(p.value_bits)
    &&& a.threshold_bits == Some(p.threshold_bits)
}

/// The active alerts after `a` is taken in.
pub open spec fn active_after(active: Seq<AlertView>, a: AlertView) -> Seq<AlertView> {
    match key_index(active, alert_key(a)) {
        Some(i) => active.update(i, AlertView { value_bits: a.value_bits, triggered_at: a.triggered_at, ..active[i] }),
        None => active.push(a),
    }
}

/// The active alerts and the history after `alerts` are taken in, in order.
pub open spec fn processed_all(
    active: Seq<AlertView>,
    history: Seq<AlertView>,
    alerts: Seq<AlertView>,
) -> (Seq<AlertView>, Seq<AlertView>)
    decreases alerts.len(),
{
    if alerts.len() == 0 {
        (active, history)
    } else {
        let (a, h) = processed_all(active, history, alerts.drop_last());
        (active_after(a, alerts.last()), push_bounded(h, alerts.last(), MAX_ALERT_HISTORY as nat))
    }
}

/// The text of `s` as a new string.
fn text_of(s: &str) -> (r: String)
    ensures
        r@ == s@,
{
    String::from_str(s)
}

/// The alert `breach` raises at `now`.
fn raise(
    breach: &RuleBreach,
    alert_type: AlertType,
    severity: AlertSeverity,
    title: String,
    source: String,
    labels: Vec<(String, String)>,
    now: u64,
) -> (r: Alert)
    ensures
        raised_as(r@, PlannedAlert {
            alert_type,
            severity,
            title: title@,
            description: breach.description@,
            source: source@,
            labels: label_views(labels@),
            value_bits: breach.value_bits,
            threshold_bits: breach.threshold_bits,
        }, now),
{
    let v = crate::ids::new_uuid();
    Alert {
        id: crate::device::id_string(v),
        alert_type,
        severity,
        status: AlertStatus::Active,
        title,
        description: breach.description.clone(),
        source,
        labels,
        triggered_at: now,
        resolved_at: None,
        acknowledged_at: None,
        value_bits: Some(breach.value_bits),
        threshold_bits: Some(breach.threshold_bits),
    }
}

/// The one label `(key, value)`.
fn one_label(key: &str, value: &str) -> (r: Vec<(String, String)>)
    ensures
        label_views(r@) == seq![(key@, value@)],
{
    let mut r: Vec<(String, String)> = Vec::new();
    r.push((text_of(key), text_of(value)));
    assert(label_views(r@) =~= seq![(key@, value@)]);
    r
}

/// The labels of an alert about device `id` and `metric`.
fn device_label_list(id: u32, metric: &str) -> (r: Vec<(String, String)>)
    ensures
        label_views(r@) == device_labels(id, metric@),
{
    let mut r: Vec<(String, String)> = Vec::new();
    r.push((text_of("device_id"), crate::logging::formatter::decimal_string(id as u64)));
    r.push((text_of("metric"), text_of(metric)));
    proof {
        reveal_strlit("device_id");
        reveal_strlit("metric");
    }
    assert(label_views(r@) =~= device_labels(id, metric@));
    r
}

impl AlertManager {
    /// Takes in `alerts` in order, each as `process_alert` does.
    fn process_all(&mut self, alerts: &Vec<Alert>)
        requires
            old(self).well_formed(),
        ensures
            final(self).well_formed(),
            final(self).limits() == old(self).limits(),
            (final(self).active(), final(self).history())
                == processed_all(old(self).active(), old(self).history(), alert_views(alerts@)),
    {
        let mut i: usize = 0;
        while i < alerts.len()
            invariant
                self.well_formed(),
                self.limits() == old(self).limits(),
                i <= alerts@.len(),
                (self.active(), self.history())
                    == processed_all(old(self).active(), old(self).history(), alert_views(alerts@.subrange(0, i as int))),
            decreases alerts@.len() - i,
        {
            let a = alerts[i].clone();
            proof {
                let pre = alert_views(alerts@.subrange(0, i + 1));
                assert(pre.drop_last() =~= alert_views(alerts@.subrange(0, i as int)));
                assert(pre.last() == alerts@[i as int]@);
            }
            self.process_alert(a);
            i = i + 1;
        }
        assert(alerts@.subrange(0, i as int) =~= alerts@);
    }

    /// Raises at `now` the alerts of the system rules that `checks` reports
    /// broken (temperature, CPU use, memory use, in that order), takes each in
    /// as `process_alert` does, and returns them.
    pub fn check_system_alerts_at(&mut self, checks: &SystemChecks, now: u64) -> (r: Vec<Alert>)
        requires
            old(self).well_formed(),
        ensures
            final(self).well_formed(),
            final(self).limits() == old(self).limits(),
            r@.len() == system_plan(*checks).len(),
            forall|i: int| 0 <= i < r@.len() ==> raised_as(#[trigger] r@[i]@, system_plan(*checks)[i], now),
            (final(self).active(), final(self).history())
                == processed_all(old(self).active(), old(self).history(), alert_views(r@)),
    {
        let mut alerts: Vec<Alert> = Vec::new();
        proof {
            reveal_strlit("system");
            reveal_strlit("metric");
        }
        if let Some(b) = &checks.temperature {
            alerts.push(raise(b, AlertType::System, AlertSeverity::Warning, text_of("High System Temperature"),
                text_of("system"), one_label("metric", "temperature"), now));
        }
        let ghost n1 = alerts@.len();
        if let Some(b) = &checks.cpu_usage {
            alerts.push(raise(b, AlertType::System, AlertSeverity::Warning, text_of("High CPU Usage"),
                text_of("system"), one_label("metric", "cpu_usage"), now));
        }
        let ghost n2 = alerts@.len();
        if let Some(b) = &checks.memory_usage {
            alerts.push(raise(b, AlertType::System, AlertSeverity::Warning, text_of("High Memory Usage"),
                text_of("system"), one_label("metric", "memory_usage"), now));
        }
        proof {
            let plan = system_plan(*checks);
            assert(plan.len() == alerts@.len());
            assert forall|i: int| 0 <= i < alerts@.len() implies raised_as(#[trigger] alerts@[i]@, plan[i], now) by {
                let p1 = plan_of(checks.temperature, AlertType::System, AlertSeverity::Warning, "High System Temperature"@,
                    "system"@, seq![("metric"@, "temperature"@)]);
                let p2 = plan_of(checks.cpu_usage, AlertType::System, AlertSeverity::Warning, "High CPU Usage"@,
                    "system"@, seq![("metric"@, "cpu_usage"@)]);
                if i < n1 {
                    assert(plan[i] == p1[i]);
                } else if i < n2 {
                    assert(plan[i] == (p1 + p2)[i]);
                }
            }
        }
        self.process_all(&alerts);
        alerts
    }

    /// Raises at `now` the alerts of the rules of one device that `checks`
    /// reports broken (temperature, error rate, hash rate, in that order),
    /// takes each in as `process_alert` does, and returns them.
    pub fn check_device_alerts_at(&mut self, checks: &DeviceChecks, now: u64) -> (r: Vec<Alert>)
        requires
            old(self).well_formed(),
        ensures
            final(self).well_formed(),
            final(self).limits() == old(self).limits(),
            r@.len() == device_plan(*checks).len(),
            forall|i: int| 0 <= i < r@.len() ==> raised_as(#[trigger] r@[i]@, device_plan(*checks)[i], now),
            (final(self).active(), final(self).history())
                == processed_all(old(self).active(), old(self).history(), alert_views(r@)),
    {
        let mut alerts: Vec<Alert> = Vec::new();
        let mut source = text_of("device_");
        crate::logging::formatter::push_decimal(&mut source, checks.device_id as u64);
        let ghost src = source@;
        proof {
            reveal_strlit("device_");
        }
        if let Some(b) = &checks.temperature {
            alerts.push(raise(b, AlertType::Device, AlertSeverity::Error, text_of("High Device Temperature"),
                source.clone(), device_label_list(checks.device_id, "temperature"), now));
        }
        let ghost n1 = alerts@.len();
        if let Some(b) = &checks.error_rate {
            alerts.push(raise(b, AlertType::Device, AlertSeverity::Warning, text_of("High Device Error Rate"),
                source.clone(), device_label_list(checks.device_id, "error_rate"), now));
        }
        let ghost n2 = alerts@.len();
        if let Some(b) = &checks.hashrate {
            alerts.push(raise(b, AlertType::Device, AlertSeverity::Warning, text_of("Low Device Hashrate"),
                source.clone(), device_label_list(checks.device_id, "hashrate"), now));
        }
        proof {
            let plan = device_plan(*checks);
            assert(src == "device_"@ + decimal(checks.device_id as nat));
            assert(plan.len() == alerts@.len());
            assert forall|i: int| 0 <= i < alerts@.len() implies raised_as(#[trigger] alerts@[i]@, plan[i], now) by {
                let p1 = plan_of(checks.temperature, AlertType::Device, AlertSeverity::Error, "High Device Temperature"@,
                    src, device_labels(checks.device_id, "temperature"@));
                let p2 = plan_of(checks.error_rate, AlertType::Device, AlertSeverity::Warning, "High Device Error Rate"@,
                    src, device_labels(checks.device_id, "error_rate"@));
                if i < n1 {
                    assert(plan[i] == p1[i]);
                } else if i < n2 {
                    assert(plan[i] == (p1 + p2)[i]);
                }
            }
        }
        self.process_all(&alerts);
        alerts
    }
}
} // verus!
