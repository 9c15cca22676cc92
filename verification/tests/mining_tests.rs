use cgminer_rs::device::{MiningResult, Work};
use cgminer_rs::error::{DeviceError, ErrorStats, MiningError, PoolError, RecoveryStrategy, WorkError};
use cgminer_rs::mining::manager::{core_kind_for_factory, core_start_plan, dispatch_order, ready_device_count, select_optimal_core, MiningConfig, MiningEvent, MiningLifecycle};
use cgminer_rs::mining::work_queue::{ResultQueue, WorkQueue, WorkQueueManager};
use cgminer_rs::mining::{MiningState, ResultItem, WorkDistributionStrategy, WorkItem};
use cgminer_rs::device::device_core_mapper::DeviceCoreMapper;
use cgminer_rs::config::Config;

const NOW: u64 = 1_700_000_000_000;

fn work(id: u128) -> Work {
    Work::new_at(id, format!("job{}", id), [0xFF; 32], [0; 80], 1.0f64.to_bits(), NOW)
}

#[test]
fn work_queue_is_fifo_bounded_and_unique() {
    let mut q = WorkQueue::new(2);
    assert!(q.push(WorkItem::new_at(work(1), NOW)).is_ok());
    assert!(matches!(q.push(WorkItem::new_at(work(1), NOW)), Err(WorkError::Duplicate { .. })));
    assert!(q.push(WorkItem::new_at(work(2), NOW)).is_ok());
    assert!(q.is_full());
    assert_eq!(q.push(WorkItem::new_at(work(3), NOW)), Err(WorkError::QueueFull));
    assert_eq!(q.pop().unwrap().work.id, 1);
    assert_eq!(q.pop().unwrap().work.id, 2);
    assert!(q.pop().is_none());
    assert_eq!(q.get_stats().total_added, 2);
    assert_eq!(q.get_stats().total_processed, 2);
}

#[test]
fn work_queue_priority_device_and_expiry() {
    let mut q = WorkQueue::new(10);
    q.push(WorkItem::new_at(work(1), NOW).with_priority(1)).unwrap();
    q.push(WorkItem::new_at(work(2), NOW).with_priority(5)).unwrap();
    q.push(WorkItem::new_at(work(3), NOW).with_priority(5).with_device(9)).unwrap();
    assert_eq!(q.pop_by_priority().unwrap().work.id, 2);
    assert_eq!(q.pop_for_device(9).unwrap().work.id, 3);
    let fallback = q.pop_for_device(4).unwrap();
    assert_eq!(fallback.work.id, 1);
    assert_eq!(fallback.assigned_device, Some(4));
    assert!(q.pop_for_device(4).is_none());
    q.push(WorkItem::new_at(work(4), NOW)).unwrap();
    let removed = q.cleanup_expired_at(NOW + 200_000);
    assert_eq!(removed, 1);
    assert!(q.is_empty());
}

#[test]
fn result_queue_and_manager() {
    let mut rq = ResultQueue::new(4);
    let item = WorkItem::new_at(work(1), NOW);
    let r1 = ResultItem::new_at(MiningResult::new_at(1, 0, 5, 0, NOW), item.clone(), NOW);
    let r2 = ResultItem::new_at(MiningResult::new_at(2, 0, 6, 0, NOW), item.clone(), NOW).mark_valid();
    rq.push(r1).unwrap();
    rq.push(r2).unwrap();
    assert_eq!(rq.pop_valid().unwrap().result.work_id, 2);
    assert_eq!(rq.len(), 1);

    let mut m = WorkQueueManager::new(4, 4, WorkDistributionStrategy::RoundRobin);
    m.submit_work_at(work(7), NOW).unwrap();
    assert_eq!(m.get_work(None).unwrap().work.id, 7);
    assert!(m.get_work(None).is_none());
    m.submit_result_at(MiningResult::new_at(7, 1, 2, 0, NOW), item, NOW).unwrap();
    assert_eq!(m.get_result().unwrap().result.nonce, 2);
}

#[test]
fn optimal_core_and_dispatch_order() {
    let cores = vec!["cpu-btc-1".to_string(), "gpu-btc-2".to_string(), "maijie-l7-3".to_string(), "x".to_string()];
    assert_eq!(select_optimal_core(&cores).unwrap(), "maijie-l7-3");
    assert_eq!(
        dispatch_order(&cores),
        vec!["gpu-btc-2".to_string(), "maijie-l7-3".to_string(), "cpu-btc-1".to_string(), "x".to_string()]
    );
    let tie = vec!["software-a".to_string(), "cpu-b".to_string()];
    assert_eq!(select_optimal_core(&tie).unwrap(), "software-a");
    match select_optimal_core(&vec![]) {
        Err(MiningError::CoreError(m)) => assert_eq!(m, "No cores available for selection"),
        other => panic!("unexpected {:?}", other),
    }
}

#[test]
fn mining_config_and_events() {
    let d = MiningConfig::default();
    assert_eq!(d.work_restart_timeout, std::time::Duration::from_secs(60));
    assert_eq!(d.max_work_queue_size, 1000);
    assert_eq!(f32::from_bits(d.target_temperature_bits), 75.0);
    let c = MiningConfig::from_config(&Config::default());
    assert_eq!(c.scan_interval, std::time::Duration::from_secs(30));
    assert!(c.enable_auto_tuning);
    let e = MiningEvent::PoolConnectionChanged { pool_id: 1, connected: true, timestamp: 9 };
    assert_eq!(e.event_type(), "pool_connection_changed");
    assert_eq!(e.timestamp(), 9);
    let e = MiningEvent::StateChanged { old_state: MiningState::Stopped, new_state: MiningState::Running, timestamp: 3 };
    assert_eq!(e.event_type(), "state_changed");
}

#[test]
fn error_policy_and_counts() {
    let mut stats = ErrorStats::new();
    stats.record_error(&MiningError::Device(DeviceError::Timeout { device_id: 1 }));
    stats.record_error(&MiningError::Pool(PoolError::NoPoolsAvailable));
    stats.record_error(&MiningError::System("x".to_string()));
    assert_eq!(stats.device_errors, 1);
    assert_eq!(stats.pool_errors, 1);
    assert_eq!(stats.total_errors, 3);
    stats.reset();
    assert_eq!(stats.total_errors, 0);
    assert_eq!(PoolError::NoPoolsAvailable.recovery_strategy(), PoolError::NoPoolsAvailable.recovery_strategy());
    let _ = RecoveryStrategy::Ignore;
}

#[test]
fn device_mappings() {
    let mut mapper = DeviceCoreMapper::new();
    let ms = mapper.create_device_mappings_for_core("Software Mining Core", "software", 2).unwrap();
    assert_eq!(ms.len(), 2);
    assert_eq!(ms[0].device_id, 1000);
    assert_eq!(ms[1].device_id, 1001);
    assert_eq!(mapper.get_core_devices("Software Mining Core"), vec![1000, 1001]);
    assert!(mapper.validate_mappings().is_ok());
    mapper.remove_device_mapping(1000).unwrap();
    assert!(mapper.get_device_mapping(1000).is_none());
    assert_eq!(mapper.get_core_devices("Software Mining Core"), vec![1001]);
    let stats = mapper.get_mapping_stats();
    assert_eq!(stats.total_devices, 1);
}

#[test]
fn lifecycle_start_then_stop_returns_to_stopped() {
    let mut m = MiningLifecycle::new();
    assert_eq!(m.get_state(), MiningState::Stopped);
    assert!(m.begin_stop(NOW).is_none());
    let e = m.begin_start(NOW).unwrap();
    assert!(matches!(e, MiningEvent::StateChanged { old_state: MiningState::Stopped, new_state: MiningState::Starting, timestamp: NOW }));
    assert_eq!(m.get_state(), MiningState::Starting);
    assert!(m.begin_start(NOW + 1).is_none());
    let e = m.finish_start(NOW + 2);
    assert!(matches!(e, MiningEvent::StateChanged { new_state: MiningState::Running, .. }));
    assert_eq!(m.get_state(), MiningState::Running);
    let e = m.begin_stop(NOW + 3).unwrap();
    assert!(matches!(e, MiningEvent::StateChanged { old_state: MiningState::Running, new_state: MiningState::Stopping, .. }));
    assert!(m.begin_stop(NOW + 4).is_none());
    m.finish_stop(NOW + 5);
    assert_eq!(m.get_state(), MiningState::Stopped);
    assert!(m.begin_start(NOW + 6).is_some());
}

#[test]
fn ready_devices_follow_the_factories() {
    let mut config = Config::default();
    let names = |v: &[&str]| v.iter().map(|s| s.to_string()).collect::<Vec<String>>();
    assert_eq!(ready_device_count(&names(&[]), &config), 4);
    assert_eq!(ready_device_count(&names(&["Software Mining Core"]), &config), 4);
    assert_eq!(ready_device_count(&names(&["GPU Mining Core Factory"]), &config), 1);
    assert_eq!(ready_device_count(&names(&["Software Mining Core", "GPU Mining Core Factory", "Other"]), &config), 6);
    assert_eq!(ready_device_count(&names(&["Maijie L7 Core"]), &config), 4);
    if let Some(m) = config.cores.maijie_l7.as_mut() {
        m.enabled = true;
    }
    assert_eq!(ready_device_count(&names(&["Maijie L7 Core"]), &config), 2);
    config.cores.cpu_btc.as_mut().unwrap().device_count = 7;
    assert_eq!(ready_device_count(&names(&["Software Mining Core", "Maijie L7 Core"]), &config), 9);
}

#[test]
fn device_counts_by_core_and_type() {
    let mut mapper = DeviceCoreMapper::new();
    mapper.create_device_mappings_for_core("Software Mining Core", "software", 3).unwrap();
    mapper.create_device_mappings_for_core("Maijie L7 Core", "asic", 2).unwrap();
    assert_eq!(mapper.get_devices_by_core_type("software"), vec![1000, 1001, 1002]);
    assert_eq!(mapper.get_devices_by_core_type("asic"), vec![2000, 2001]);
    assert!(mapper.get_devices_by_core_type("gpu").is_empty());
    let counts = mapper.get_device_count_by_core();
    assert_eq!(counts, vec![("Software Mining Core".to_string(), 3), ("Maijie L7 Core".to_string(), 2)]);
    mapper.remove_device_mapping(1001).unwrap();
    assert_eq!(mapper.get_devices_by_core_type("software"), vec![1000, 1002]);
    assert_eq!(mapper.get_device_count_by_core()[0].1, 2);
}

#[test]
fn core_device_lists_grow_in_order() {
    let mut mapper = DeviceCoreMapper::new();
    mapper.create_device_mappings_for_core("A", "software", 2).unwrap();
    mapper.create_device_mappings_for_core("B", "asic", 1).unwrap();
    mapper.create_device_mappings_for_core("A", "software", 2).unwrap();
    assert_eq!(mapper.get_core_devices("A"), vec![1000, 1001, 1002, 1003]);
    assert_eq!(mapper.get_core_devices("B"), vec![2000]);
}

#[test]
fn the_best_created_core_starts_and_the_rest_go() {
    let created = vec!["cpu-btc-1".to_string(), "maijie-l7-2".to_string(), "gpu-btc-3".to_string()];
    let (sel, removed) = core_start_plan(&created).unwrap();
    assert_eq!(sel, "maijie-l7-2");
    assert_eq!(removed, vec!["cpu-btc-1".to_string(), "gpu-btc-3".to_string()]);
    let (sel, removed) = core_start_plan(&vec!["cpu-btc-1".to_string()]).unwrap();
    assert_eq!(sel, "cpu-btc-1");
    assert!(removed.is_empty());
    assert!(core_start_plan(&vec![]).is_err());
    let mut config = Config::default();
    assert_eq!(core_kind_for_factory("Software Mining Core", &config), Some("cpu-btc"));
    assert_eq!(core_kind_for_factory("GPU Mining Core Factory", &config), Some("gpu-btc"));
    assert_eq!(core_kind_for_factory("Maijie L7 Core", &config), None);
    config.cores.maijie_l7.as_mut().unwrap().enabled = true;
    assert_eq!(core_kind_for_factory("Maijie L7 Core", &config), Some("maijie-l7"));
    assert_eq!(core_kind_for_factory("Other", &config), None);
}
