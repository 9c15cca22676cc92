//! Monitoring: its state, the timing of metric collection and the alert
//! bookkeeping.

pub mod alerts;
pub mod metrics;
pub mod history;

use vstd::prelude::*;
use std::time::Duration;
use crate::clock::{duration_from_secs, duration_of_secs, now_millis};

verus! {

/// The state of the monitoring system.
#[derive(Debug, Clone, PartialEq, Eq)]
pub enum MonitoringState {
    Stopped,
    Starting,
    Running,
    Stopping,
    Error(String),
}

/// `d` divided by `n`, as `Duration`'s division by a `u32` gives it.
pub uninterp spec fn duration_divided(d: Duration, n: u32) -> Duration;

/// The division of a `Duration` by a `u32` of std; it panics on zero, which
/// the contract leaves out.
#[verifier::external_body]
fn divide_duration(d: Duration, n: u32) -> (r: Duration)
    requires
        n != 0,
    ensures
        r == duration_divided(d, n),
{
    d / n
}

/// Timing of the monitoring work. The last collection time is milliseconds
/// since the Unix epoch.
#[derive(Debug, Clone, Copy)]
pub struct PerformanceStats {
    pub metrics_collection_time: Duration,
    pub alert_processing_time: Duration,
    pub total_metrics_collected: u64,
    pub total_alerts_triggered: u64,
    pub last_collection_time: Option<u64>,
}

impl Default for PerformanceStats {
    /// Zero durations and counts, and no collection yet.
    fn default() -> (r: Self)
        ensures
            r.metrics_collection_time == duration_of_secs(0),
            r.alert_processing_time == duration_of_secs(0),
            r.total_metrics_collected == 0,
            r.total_alerts_triggered == 0,
            r.last_collection_time.is_none(),
    {
        PerformanceStats {
            metrics_collection_time: duration_from_secs(0),
            alert_processing_time: duration_from_secs(0),
            total_metrics_collected: 0,
            total_alerts_triggered: 0,
            last_collection_time: None,
        }
    }
}

impl PerformanceStats {
    /// Records a collection that took `duration` and ended at time `now`.
    pub fn record_collection_time_at(&mut self, duration: Duration, now: u64)
        requires
            old(self).total_metrics_collected < u64::MAX,
        ensures
            *final(self) == (PerformanceStats {
                metrics_collection_time: duration,
                total_metrics_collected: (old(self).total_metrics_collected + 1) as u64,
                last_collection_time: Some(now),
                ..*old(self)
            }),
    {
        self.metrics_collection_time = duration;
        self.total_metrics_collected = self.total_metrics_collected + 1;
        self.last_collection_time = Some(now);
    }

    /// Records a collection that took `duration` and ended now.
    pub fn record_collection_time(&mut self, duration: Duration)
        requires
            old(self).total_metrics_collected < u64::MAX,
        ensures
            final(self).metrics_collection_time == duration,
            final(self).total_metrics_collected == old(self).total_metrics_collected + 1,
            final(self).last_collection_time is Some,
            final(self).alert_processing_time == old(self).alert_processing_time,
            final(self).total_alerts_triggered == old(self).total_alerts_triggered,
    {
        let now = now_millis();
        self.record_collection_time_at(duration, now);
    }

    /// Records alert processing that took `duration`.
    pub fn record_alert_processing_time(&mut self, duration: Duration)
        requires
            old(self).total_alerts_triggered < u64::MAX,
        ensures
            *final(self) == (PerformanceStats {
                alert_processing_time: duration,
                total_alerts_triggered: (old(self).total_alerts_triggered + 1) as u64,
                ..*old(self)
            }),
    {
        self.alert_processing_time = duration;
        self.total_alerts_triggered = self.total_alerts_triggered + 1;
    }

    /// The last collection time divided by the number of collections; zero
    /// before any collection. The count is taken modulo 2^32 as the divisor,
    /// so a count that is a nonzero multiple of 2^32 is left out.
    pub fn get_average_collection_time(&self) -> (r: Duration)
        requires
            self.total_metrics_collected == 0 || self.total_metrics_collected % 0x1_0000_0000 != 0,
        ensures
            self.total_metrics_collected == 0 ==> r == duration_of_secs(0),
            self.total_metrics_collected != 0 ==> r == duration_divided(
                self.metrics_collection_time,
                (self.total_metrics_collected % 0x1_0000_0000) as u32,
            ),
    {
        if self.total_metrics_collected == 0 {
            duration_from_secs(0)
        } else {
            let n = (self.total_metrics_collected % 0x1_0000_0000) as u32;
            divide_duration(self.metrics_collection_time, n)
        }
    }
}

/// How many metric records the history holds.
#[derive(Debug, Clone, Copy, PartialEq, Eq)]
pub struct MetricsHistoryStats {
    pub system_metrics_count: usize,
    pub mining_metrics_count: usize,
    pub device_metrics_count: usize,
    pub pool_metrics_count: usize,
    pub total_entries: usize,
}

impl MetricsHistoryStats {
    /// The counts of each kind and their sum.
    pub fn from_counts(system: usize, mining: usize, device: usize, pool: usize) -> (r: Self)
        requires
            system + mining + device + pool <= usize::MAX,
        ensures
            r.system_metrics_count == system,
            r.mining_metrics_count == mining,
            r.device_metrics_count == device,
            r.pool_metrics_count == pool,
            r.total_entries == system + mining + device + pool,
    {
        MetricsHistoryStats {
            system_metrics_count: system,
            mining_metrics_count: mining,
            device_metrics_count: device,
            pool_metrics_count: pool,
            total_entries: system + mining + device + pool,
        }
    }
}

} // verus!
