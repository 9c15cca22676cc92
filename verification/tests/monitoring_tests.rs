use cgminer_rs::monitoring::alerts::{Alert, AlertManager, AlertSeverity, AlertStatus, AlertType, DeviceChecks, RuleBreach, SystemChecks};
use cgminer_rs::monitoring::{MetricsHistoryStats, PerformanceStats};
use cgminer_rs::config::Config;
use cgminer_rs::c_api::{device_list, error_string, CApiError};
use cgminer_rs::core_loader::RegistryStats;
use std::time::Duration;

fn alert(title: &str, source: &str, severity: AlertSeverity, now: u64) -> Alert {
    Alert::new_at(
        format!("id-{}", now),
        AlertType::Device,
        severity,
        title.to_string(),
        "d".to_string(),
        source.to_string(),
        now,
    )
}

#[test]
fn alert_keys_and_values() {
    let a = alert("High Device Temperature", "device_1", AlertSeverity::Error, 5)
        .with_label("metric".to_string(), "temperature".to_string())
        .with_label("metric".to_string(), "temp".to_string())
        .with_values(90.0f64.to_bits(), 85.0f64.to_bits());
    assert_eq!(a.key(), "device_1_high_device_temperature");
    assert_eq!(a.labels, vec![("metric".to_string(), "temp".to_string())]);
    assert_eq!(a.value_bits, Some(90.0f64.to_bits()));
    assert!(a.is_active());
    assert_eq!(a.get_duration_at(15), 10);
    let mut r = a.clone();
    r.resolve_at(12);
    assert_eq!(r.status, AlertStatus::Resolved);
    assert_eq!(r.get_duration_at(1000), 7);
}

#[test]
fn alert_manager_bookkeeping() {
    let mut m = AlertManager::new(Config::default().monitoring.alert_thresholds);
    m.process_alert(alert("High CPU Usage", "system", AlertSeverity::Warning, 1).with_values(1, 2));
    m.process_alert(alert("High CPU Usage", "system", AlertSeverity::Warning, 2).with_values(3, 2));
    m.process_alert(alert("Low Device Hashrate", "device_2", AlertSeverity::Error, 3));
    let active = m.get_active_alerts();
    assert_eq!(active.len(), 2);
    assert_eq!(active[0].value_bits, Some(3));
    assert_eq!(active[0].triggered_at, 2);
    assert_eq!(m.get_alert_history().len(), 3);
    let stats = m.get_alert_stats();
    assert_eq!(stats.active_alerts, 2);
    assert_eq!(stats.total_alerts, 3);
    assert_eq!(stats.severity_counts.warning, 1);
    assert_eq!(stats.severity_counts.error, 1);

    m.acknowledge_alert_at("system_high_cpu_usage", 10);
    assert_eq!(m.get_active_alerts()[0].status, AlertStatus::Acknowledged);
    m.cleanup_resolved_alerts_at(20);
    let active = m.get_active_alerts();
    assert_eq!(active.len(), 1);
    assert_eq!(active[0].source, "device_2");
    let history = m.get_alert_history();
    assert_eq!(history.len(), 4);
    assert_eq!(history[3].status, AlertStatus::Resolved);
    assert_eq!(history[3].resolved_at, Some(20));

    m.resolve_alert_at("device_2_low_device_hashrate", 30);
    assert!(m.get_active_alerts().is_empty());
    m.resolve_alert_at("missing", 31);
    assert_eq!(m.get_alert_history().len(), 5);
}

#[test]
fn alert_history_is_bounded() {
    let mut m = AlertManager::new(Config::default().monitoring.alert_thresholds);
    for i in 0..1005u64 {
        m.process_alert(alert("T", "s", AlertSeverity::Info, i));
    }
    let history = m.get_alert_history();
    assert_eq!(history.len(), 1000);
    assert_eq!(history[0].triggered_at, 5);
    assert_eq!(m.get_active_alerts().len(), 1);
}

#[test]
fn performance_stats() {
    let mut p = PerformanceStats::default();
    assert_eq!(p.get_average_collection_time(), Duration::from_secs(0));
    p.record_collection_time_at(Duration::from_millis(300), 77);
    p.record_collection_time(Duration::from_millis(300));
    assert_eq!(p.total_metrics_collected, 2);
    assert!(p.last_collection_time.is_some());
    assert_eq!(p.get_average_collection_time(), Duration::from_millis(150));
    p.record_alert_processing_time(Duration::from_millis(5));
    assert_eq!(p.total_alerts_triggered, 1);
    let h = MetricsHistoryStats::from_counts(1, 2, 3, 4);
    assert_eq!(h.total_entries, 10);
}

#[test]
fn c_interface_codes() {
    assert_eq!(CApiError::DeviceNotFound.code(), -2);
    assert_eq!(CApiError::Success.code(), 0);
    assert_eq!(error_string(-3), "Initialization failed");
    assert_eq!(error_string(7), "Unknown error");
    assert_eq!(device_list(0), Err(CApiError::InvalidParameter));
    assert_eq!(device_list(1).unwrap(), vec![0]);
    assert_eq!(device_list(9).unwrap(), vec![0, 1]);
}

#[test]
fn registry_stats_text() {
    assert_eq!(RegistryStats { registered_factories: 2, active_cores: 0 }.to_string(), "注册工厂: 2");
    assert_eq!(RegistryStats { registered_factories: 2, active_cores: 1 }.to_string(), "注册工厂: 2, 活跃核心: 1");
}

fn breach(v: f64, t: f64, d: &str) -> RuleBreach {
    RuleBreach { value_bits: v.to_bits(), threshold_bits: t.to_bits(), description: d.to_string() }
}

#[test]
fn rule_breaches_raise_and_record_alerts() {
    let mut m = AlertManager::new(Config::default().monitoring.alert_thresholds);
    let none = SystemChecks { temperature: None, cpu_usage: None, memory_usage: None };
    assert!(m.check_system_alerts_at(&none, 5).is_empty());
    let checks = SystemChecks {
        temperature: None,
        cpu_usage: Some(breach(95.0, 80.0, "CPU usage is 95.0%, exceeding threshold of 80%")),
        memory_usage: Some(breach(91.0, 90.0, "Memory usage is 91.0%, exceeding threshold of 90%")),
    };
    let raised = m.check_system_alerts_at(&checks, 10);
    assert_eq!(raised.len(), 2);
    assert_eq!(raised[0].title, "High CPU Usage");
    assert_eq!(raised[0].source, "system");
    assert_eq!(raised[0].labels, vec![("metric".to_string(), "cpu_usage".to_string())]);
    assert_eq!(raised[0].value_bits, Some(95.0f64.to_bits()));
    assert_eq!(raised[0].triggered_at, 10);
    assert_eq!(raised[1].title, "High Memory Usage");
    assert_eq!(raised[1].id.len(), 36);
    assert_eq!(m.get_active_alerts().len(), 2);
    assert_eq!(m.get_alert_history().len(), 2);
    let dev = DeviceChecks {
        device_id: 7,
        temperature: Some(breach(91.0, 85.0, "hot")),
        error_rate: None,
        hashrate: Some(breach(1.0, 50.0, "slow")),
    };
    let raised = m.check_device_alerts_at(&dev, 20);
    assert_eq!(raised.len(), 2);
    assert_eq!(raised[0].source, "device_7");
    assert_eq!(raised[0].severity, AlertSeverity::Error);
    assert_eq!(raised[0].labels, vec![("device_id".to_string(), "7".to_string()), ("metric".to_string(), "temperature".to_string())]);
    assert_eq!(raised[1].title, "Low Device Hashrate");
    assert_eq!(m.get_active_alerts().len(), 4);
    // raising the same rule again updates the active alert
    m.check_device_alerts_at(&dev, 30);
    assert_eq!(m.get_active_alerts().len(), 4);
    assert_eq!(m.get_alert_history().len(), 6);
}

#[test]
fn alerts_resolve_and_acknowledge_by_id() {
    let mut m = AlertManager::new(Config::default().monitoring.alert_thresholds);
    m.process_alert(alert("High CPU Usage", "system", AlertSeverity::Warning, 5));
    m.process_alert(alert("Low Device Hashrate", "device_2", AlertSeverity::Warning, 6));
    m.acknowledge_alert_by_id_at("id-6", 8);
    assert_eq!(m.get_active_alerts()[1].status, AlertStatus::Acknowledged);
    m.resolve_alert_by_id_at("id-5", 9);
    let active = m.get_active_alerts();
    assert_eq!(active.len(), 1);
    assert_eq!(active[0].id, "id-6");
    let last = m.get_alert_history().last().unwrap().clone();
    assert_eq!(last.id, "id-5");
    assert_eq!(last.status, AlertStatus::Resolved);
    assert_eq!(last.resolved_at, Some(9));
    m.resolve_alert_by_id_at("nothing", 10);
    assert_eq!(m.get_active_alerts().len(), 1);
}
