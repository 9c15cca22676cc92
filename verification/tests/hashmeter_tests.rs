use cgminer_rs::logging::hashmeter::{cutoff_for, span_ms, HashRateLog, HashRateRecord, HASHRATE_HISTORY_LIMIT};

#[test]
fn windows_select_recent_readings() {
    assert_eq!(cutoff_for(10_000, None), 0);
    assert_eq!(cutoff_for(10_000, Some(3_000)), 7_000);
    assert_eq!(cutoff_for(1_000, Some(3_000)), 0);
    let mut log = HashRateLog::new();
    assert!(log.latest().is_none());
    log.record_hashrate_at(1.0f64.to_bits(), Some(1), None, 1_000);
    log.record_hashrate_at(2.0f64.to_bits(), Some(2), Some(7), 5_000);
    log.record_hashrate_at(3.0f64.to_bits(), Some(1), None, 9_000);
    let recent = log.readings_since(4_000, None);
    assert_eq!(recent.len(), 2);
    assert_eq!(span_ms(&recent), 4_000);
    let dev1 = log.readings_since(0, Some(1));
    assert_eq!(dev1.iter().map(|r| r.timestamp).collect::<Vec<u64>>(), vec![1_000, 9_000]);
    assert_eq!(span_ms(&dev1), 8_000);
    assert_eq!(span_ms(&Vec::new()), 0);
    assert_eq!(
        log.latest(),
        Some(HashRateRecord { timestamp: 9_000, hashrate_bits: 3.0f64.to_bits(), device_id: Some(1), pool_id: None })
    );
    log.clear_history();
    assert!(log.readings_since(0, None).is_empty());
}

#[test]
fn the_log_keeps_at_most_its_limit() {
    let mut log = HashRateLog::new();
    for t in 0..(HASHRATE_HISTORY_LIMIT as u64 + 5) {
        log.record_hashrate_at(0, None, None, t);
    }
    let all = log.readings_since(0, None);
    assert_eq!(all.len(), HASHRATE_HISTORY_LIMIT);
    assert_eq!(all[0].timestamp, 5);
}
