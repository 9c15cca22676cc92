use cgminer_rs::monitoring::history::{KeyedHistory, MetricsHistory};

#[test]
fn metric_lists_keep_the_latest_records() {
    let mut h: MetricsHistory<u32, u64, u8, i32> = MetricsHistory::new(2);
    assert!(h.get_latest_system_metrics().is_none());
    h.add_system_metrics(1);
    h.add_system_metrics(2);
    h.add_system_metrics(3);
    assert_eq!(h.get_latest_system_metrics(), Some(&3));
    h.add_mining_metrics(10);
    assert_eq!(h.get_latest_mining_metrics(), Some(&10));
    h.add_device_metrics(7, 1);
    h.add_device_metrics(8, 2);
    h.add_device_metrics(7, 3);
    h.add_device_metrics(7, 4);
    assert_eq!(h.get_latest_device_metrics(7), Some(&4));
    assert_eq!(h.get_latest_device_metrics(8), Some(&2));
    assert_eq!(h.get_latest_device_metrics(9), None);
    h.add_pool_metrics(1, -5);
    assert_eq!(h.get_latest_pool_metrics(1), Some(&-5));
    let stats = h.get_metrics_history_stats();
    assert_eq!(stats.system_metrics_count, 2);
    assert_eq!(stats.mining_metrics_count, 1);
    assert_eq!(stats.device_metrics_count, 3);
    assert_eq!(stats.pool_metrics_count, 1);
    assert_eq!(stats.total_entries, 7);
    h.clear();
    assert_eq!(h.get_metrics_history_stats().total_entries, 0);
    assert!(h.get_latest_device_metrics(7).is_none());
}

#[test]
fn a_zero_bound_keeps_nothing() {
    let mut h: MetricsHistory<u32, u32, u32, u32> = MetricsHistory::new(0);
    h.add_system_metrics(1);
    h.add_device_metrics(1, 1);
    assert!(h.get_latest_system_metrics().is_none());
    assert!(h.get_latest_device_metrics(1).is_none());
    let mut k: KeyedHistory<u8> = KeyedHistory::new();
    k.add(3, 9, 5);
    assert_eq!(k.latest(3), Some(&9));
    assert_eq!(k.record_count(), 1);
    k.clear();
    assert_eq!(k.record_count(), 0);
}
