use cgminer_rs::api::websocket::ConnectionState;
use cgminer_rs::device::architecture::{DeviceArchitectureConfig, UnifiedDeviceArchitecture};
use cgminer_rs::device::chain::{read_result_command, reset_command, temperature_command, voltage_command, ChainState};
use cgminer_rs::device::device_core_mapper::DeviceCoreMapper;
use cgminer_rs::device::maijie_l7::MaijieL7Driver;
use cgminer_rs::device::{DeviceInfo, DeviceStats, DeviceStatus, MiningResult, Work};
use cgminer_rs::mining::work_queue::WorkQueueManager;
use cgminer_rs::mining::{ResultItem, ValidationStatus, WorkDistributionStrategy, WorkItem};
use cgminer_rs::monitoring::alerts::{Alert, AlertSeverity, AlertStatus, AlertType};

const NOW: u64 = 1_700_000_000_000;

fn work(id: u128, now: u64) -> Work {
    Work::new_at(id, format!("job{}", id), [0xFF; 32], [0; 80], 1.0f64.to_bits(), now)
}

#[test]
fn chain_frames_for_each_command() {
    assert_eq!(voltage_command(4, 0x0352), vec![0x55, 0xAA, 0x53, 4, 0x03, 0x52, 0, 0]);
    assert_eq!(read_result_command(7), vec![0x55, 0xAA, 0x55, 7, 0, 0, 0, 0]);
    assert_eq!(reset_command(1), vec![0x55, 0xAA, 0x56, 1, 0, 0, 0, 0]);
    assert_eq!(temperature_command(2), vec![0x55, 0xAA, 0x57, 2, 0, 0, 0, 0]);
    assert_eq!(MaijieL7Driver::new().read_id_command(), vec![0x55, 0xAA, 0x50, 0, 0, 0, 0, 0]);
}

#[test]
fn chain_error_counting() {
    let mut chain = ChainState::new(3);
    chain.note_error();
    chain.note_error();
    assert_eq!(chain.error_count, 2);
    chain.clear_error_count();
    assert_eq!(chain.error_count, 0);
    chain.mark_working();
    assert_eq!(chain.status, cgminer_rs::device::traits::ChainStatus::Working);
}

#[test]
fn work_items_and_results_change_as_stated() {
    let mut item = WorkItem::new_at(work(1, NOW), NOW);
    item.increment_retry();
    item.increment_retry();
    assert_eq!(item.retry_count, 2);
    assert_eq!(item.age_at(NOW + 250), 250);
    assert_eq!(item.age_at(NOW - 1), 0);
    let r = ResultItem::new_at(MiningResult::new_at(1, 2, 3, 0, NOW), item.clone(), NOW);
    assert_eq!(r.clone().mark_stale().validation_status, ValidationStatus::Stale);
    assert_eq!(r.mark_invalid("low difficulty".to_string()).validation_status, ValidationStatus::Invalid("low difficulty".to_string()));
    let w = work(5, NOW);
    assert_eq!(w.time_to_expire_at(NOW + 1_000), w.expires_at - NOW - 1_000);
    assert_eq!(w.time_to_expire_at(w.expires_at + 1), 0);
    assert_eq!(MiningResult::new_at(1, 2, 3, 0, NOW).with_extra_nonce(9).extra_nonce, Some(9));
}

#[test]
fn manager_queues_work_and_valid_results() {
    let mut m = WorkQueueManager::new(2, 4, WorkDistributionStrategy::RoundRobin);
    let now = std::time::SystemTime::now().duration_since(std::time::UNIX_EPOCH).unwrap().as_millis() as u64;
    m.submit_work(work(1, now)).unwrap();
    assert!(m.submit_work(work(1, now)).is_err());
    assert_eq!(m.get_work_queue_stats().total_added, 1);
    assert_eq!(m.cleanup_expired_at(now + 1), 0);
    let mut q = cgminer_rs::mining::work_queue::WorkQueue::new(4);
    q.push(WorkItem::new_at(work(3, 1_000), 1_000)).unwrap();
    q.push(WorkItem::new_at(work(4, now), now)).unwrap();
    assert_eq!(q.cleanup_expired(), 1);
    assert_eq!(q.len(), 1);
    let item = WorkItem::new_at(work(2, NOW), NOW);
    m.submit_result_at(MiningResult::new_at(2, 0, 1, 0, NOW), item.clone(), NOW).unwrap();
    assert!(m.get_valid_result().is_none());
    assert_eq!(m.get_result_queue_stats().total_added, 1);
}

#[test]
fn device_counters_and_flags() {
    let mut info = DeviceInfo::new_at(1, "d".to_string(), "software".to_string(), 0, NOW);
    info.increment_accepted_shares_at(NOW + 1);
    info.increment_rejected_shares_at(NOW + 2);
    info.increment_hardware_errors_at(NOW + 3);
    assert_eq!((info.accepted_shares, info.rejected_shares, info.hardware_errors), (1, 1, 1));
    assert_eq!(info.last_share_time, Some(NOW + 1));
    assert_eq!(info.updated_at, NOW + 3);
    assert!(!info.is_overheated());
    info.update_status_at(DeviceStatus::Overheated, NOW + 4);
    assert!(info.is_overheated());
    let mut stats = DeviceStats::new();
    stats.record_hash(500);
    stats.record_hash(250);
    assert_eq!(stats.total_hashes, 750);
}

#[test]
fn architecture_requests_and_usage() {
    let mut arch = UnifiedDeviceArchitecture::new(DeviceArchitectureConfig::default());
    assert_eq!(arch.validate_request(10, 0).unwrap(), 10);
    assert!(arch.validate_request(65, 0).is_err());
    assert_eq!(arch.get_architecture_stats().memory_usage_mb, 0);
    arch.update_resource_usage(512, 50.0f64.to_bits());
    let stats = arch.get_architecture_stats();
    assert_eq!(stats.total_devices, 0);
    assert_eq!(stats.memory_usage_mb, 512);
    assert_eq!(stats.cpu_usage_percent_bits, 50.0f64.to_bits());
}

#[test]
fn connections_alerts_and_mappings() {
    let mut c = ConnectionState::new(7, NOW);
    c.update_activity(NOW + 10);
    assert!(!c.is_disconnected());
    let mut a = Alert::new_at(
        "a".to_string(),
        AlertType::System,
        AlertSeverity::Warning,
        "t".to_string(),
        "d".to_string(),
        "s".to_string(),
        NOW,
    );
    a.suppress();
    assert_eq!(a.status, AlertStatus::Suppressed);
    let mut mapper = DeviceCoreMapper::new();
    mapper.create_device_mappings_for_core("core", "software", 2).unwrap();
    let all = mapper.get_all_mappings();
    assert_eq!(all.iter().map(|m| m.device_id).collect::<Vec<u32>>(), vec![1000, 1001]);
}

#[test]
fn results_recorded_now_are_pending() {
    let item = WorkItem::new_at(work(8, NOW), NOW);
    let r = ResultItem::new(MiningResult::new_at(8, 1, 2, 0, NOW), item.clone());
    assert_eq!(r.validation_status, ValidationStatus::Pending);
    assert_eq!(r.result.nonce, 2);
    let mut m = WorkQueueManager::new(2, 1, WorkDistributionStrategy::RoundRobin);
    m.submit_result(MiningResult::new_at(8, 1, 2, 0, NOW), item.clone()).unwrap();
    assert_eq!(
        m.submit_result(MiningResult::new_at(9, 1, 2, 0, NOW), item),
        Err(cgminer_rs::error::WorkError::QueueFull)
    );
    assert_eq!(m.get_result().unwrap().result.work_id, 8);
}

#[test]
fn fresh_work_and_alerts_get_random_identifiers() {
    let a = Work::new("job".to_string(), [1; 32], [2; 80], 7);
    let b = Work::new("job".to_string(), [1; 32], [2; 80], 7);
    assert_ne!(a.id, b.id);
    assert_eq!((a.id >> 76) & 0xf, 4);
    assert_eq!(a.expires_at, a.created_at + 120_000);
    assert_eq!(a.difficulty_bits, 7);
    let alert = Alert::new(AlertType::System, AlertSeverity::Info, "t".to_string(), "d".to_string(), "s".to_string());
    assert_eq!(alert.id.len(), 36);
    assert_eq!(alert.id.as_bytes()[14], b'4');
    assert_eq!(alert.status, AlertStatus::Active);
}

#[test]
fn devices_first_seen_now() {
    let d = DeviceInfo::new(3, "dev".to_string(), "software".to_string(), 1);
    assert_eq!(d.id, 3);
    assert_eq!(d.status, DeviceStatus::Uninitialized);
    assert_eq!(d.created_at, d.updated_at);
    assert!(d.created_at > 1_600_000_000_000);
}

#[test]
fn clearing_a_queue_leaves_the_cleared_counter() {
    let mut q = cgminer_rs::mining::work_queue::WorkQueue::new(4);
    q.push(WorkItem::new_at(work(1, NOW), NOW)).unwrap();
    q.push(WorkItem::new_at(work(2, NOW), NOW)).unwrap();
    q.clear();
    assert!(q.is_empty());
    assert_eq!(q.get_stats().total_cleared, 0);
    let mut rq = cgminer_rs::mining::work_queue::ResultQueue::new(4);
    let item = WorkItem::new_at(work(3, NOW), NOW);
    rq.push(ResultItem::new_at(MiningResult::new_at(3, 0, 1, 0, NOW), item, NOW)).unwrap();
    rq.clear();
    assert_eq!(rq.get_stats().total_cleared, 0);
}
