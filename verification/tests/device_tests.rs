use cgminer_rs::device::{active_device_count, DeviceConfig, DeviceInfo, DeviceStats, DeviceStatus, MiningResult, Work};
use cgminer_rs::device::virtual_device::{hash_meets_target, mine_bitcoin_block, mining_batch_size, work_round_expired, MiningRound, check_work_fresh, VirtualDeviceDriver, initialized_info, info_with_stats_reset};
use cgminer_rs::device::chain::{
    chip_answered, command_frame, detect_command, job_chip, parse_result, parse_temperature, pll_command,
    work_command, ChainState, ChipScan,
};
use cgminer_rs::device::traits::ChainStatus;
use cgminer_rs::device::maijie_l7::{prepare_job_data, MaijieL7Driver, MaijieL7Hardware};
use cgminer_rs::device::factory::{
    allocate_asic_device_id, allocate_software_device_id, asic_chain_count, classify_device_type, core_for_factory,
    device_count_from, fallback_kind, listed_devices, software_device_count, DeviceKind, UnifiedDeviceFactory,
};
use cgminer_rs::device::architecture::{
    derive_architecture_config, validate_device_configuration, DeviceArchitectureConfig, DeviceIdAllocator,
    DeviceIdStrategy, ScalingStrategy, UnifiedDeviceArchitecture,
};
use cgminer_rs::device::device_core_mapper::DeviceCoreMapper;
use cgminer_rs::error::DeviceError;
use cgminer_rs::config::Config;
use sha2::{Digest, Sha256};

const NOW: u64 = 1_700_000_000_000;

#[test]
fn test_device_info_creation() {
    let mut device_info = DeviceInfo::new_at(0, "Test Device".to_string(), "test-device".to_string(), 0, NOW);

    assert_eq!(device_info.id, 0);
    assert_eq!(device_info.name, "Test Device");
    assert_eq!(device_info.device_type, "test-device");
    assert_eq!(device_info.chain_id, 0);

    assert!(!device_info.is_healthy());

    device_info.update_status_at(DeviceStatus::Idle, NOW);
    assert!(device_info.is_healthy());
}

#[test]
fn test_device_info_status_update() {
    let mut device_info = DeviceInfo::new_at(0, "Test Device".to_string(), "test-device".to_string(), 0, NOW);

    device_info.update_status_at(DeviceStatus::Error("Test error".to_string()), NOW);
    assert!(!device_info.is_healthy());

    device_info.update_status_at(DeviceStatus::Mining, NOW);
    assert!(device_info.is_healthy());
}

#[test]
fn test_device_info_temperature_update() {
    let mut device_info = DeviceInfo::new_at(0, "Test Device".to_string(), "test-device".to_string(), 0, NOW);

    device_info.update_temperature_at(75.5f32.to_bits(), NOW);
    assert_eq!(device_info.temperature_bits.map(f32::from_bits), Some(75.5));

    device_info.update_temperature_at(95.0f32.to_bits(), NOW);
    assert!(!device_info.is_healthy());
}

#[test]
fn test_device_info_hashrate_update() {
    let mut device_info = DeviceInfo::new_at(0, "Test Device".to_string(), "test-device".to_string(), 0, NOW);

    device_info.update_hashrate_at(38.5f64.to_bits(), NOW);
    assert_eq!(f64::from_bits(device_info.hashrate_bits), 38.5);
}

#[test]
fn test_device_stats() {
    let mut stats = DeviceStats::new();

    assert_eq!(stats.total_hashes, 0);
    assert_eq!(stats.valid_nonces, 0);
    assert_eq!(stats.hardware_errors, 0);

    stats.record_valid_nonce();
    assert_eq!(stats.valid_nonces, 1);

    stats.record_invalid_nonce();
    assert_eq!(stats.invalid_nonces, 1);

    stats.record_hardware_error();
    assert_eq!(stats.hardware_errors, 1);

    stats.record_restart_at(NOW);
    assert_eq!(stats.restart_count, 1);

    let total = stats.valid_nonces + stats.invalid_nonces;
    let error_rate = stats.invalid_nonces as f64 / total as f64 * 100.0;
    assert!(error_rate > 0.0);
}

#[test]
fn test_work_creation() {
    let target = [0u8; 32];
    let header = [0u8; 80];
    let work = Work::new_at(1, "test_job".to_string(), target, header, 1024.0f64.to_bits(), NOW);

    assert_eq!(work.job_id, "test_job");
    assert_eq!(f64::from_bits(work.difficulty_bits), 1024.0);
    assert!(!work.is_expired_at(NOW));
}

#[test]
fn test_work_expiration() {
    let target = [0u8; 32];
    let header = [0u8; 80];
    let mut work = Work::new_at(1, "test_job".to_string(), target, header, 1024.0f64.to_bits(), NOW);

    work.expires_at = NOW - 10_000;
    assert!(work.is_expired_at(NOW));
}

#[test]
fn test_mining_result_creation() {
    let work_id: u128 = 0x0123_4567_89ab_4def_8123_4567_89ab_cdef;
    let result = MiningResult::new_at(work_id, 0, 0x12345678, 1024.0f64.to_bits(), NOW);

    assert_eq!(result.work_id, work_id);
    assert_eq!(result.device_id, 0);
    assert_eq!(result.nonce, 0x12345678);
    assert_eq!(f64::from_bits(result.difficulty_bits), 1024.0);
    assert!(!result.is_valid);

    let valid_result = result.mark_valid();
    assert!(valid_result.is_valid);
}

#[test]
fn test_mining_result_validation() {
    let work_id: u128 = 42;
    let result = MiningResult::new_at(work_id, 0, 0x12345678, 1024.0f64.to_bits(), NOW);

    assert_eq!(result.work_id, work_id);
    assert_eq!(result.device_id, 0);
    assert_eq!(result.nonce, 0x12345678);
    assert_eq!(f64::from_bits(result.difficulty_bits), 1024.0);
    assert!(!result.is_valid);

    let valid_result = result.mark_valid();
    assert!(valid_result.is_valid);
}

#[test]
fn test_device_config_validation() {
    let config = DeviceConfig {
        chain_id: 0,
        enabled: true,
        frequency: 500,
        voltage: 850,
        auto_tune: true,
        chip_count: 76,
        temperature_limit_bits: 85.0f32.to_bits(),
        fan_speed: Some(50),
    };

    assert_eq!(config.chain_id, 0);
    assert!(config.enabled);
    assert_eq!(config.frequency, 500);
    assert_eq!(config.voltage, 850);
    assert!(config.auto_tune);
    assert_eq!(config.chip_count, 76);
    assert_eq!(f32::from_bits(config.temperature_limit_bits), 85.0);
    assert_eq!(config.fan_speed, Some(50));

    let high_freq_config = DeviceConfig { frequency: 1000, ..config.clone() };
    assert_eq!(high_freq_config.frequency, 1000);

    let high_voltage_config = DeviceConfig { voltage: 1200, ..config.clone() };
    assert_eq!(high_voltage_config.voltage, 1200);
}

#[test]
fn test_device_config_default() {
    let config = DeviceConfig::default();

    assert_eq!(config.chain_id, 0);
    assert!(config.enabled);
    assert_eq!(config.frequency, 500);
    assert_eq!(config.voltage, 850);
    assert!(config.auto_tune);
    assert_eq!(config.chip_count, 76);
    assert_eq!(f32::from_bits(config.temperature_limit_bits), 85.0);
    assert_eq!(config.fan_speed, None);
}

#[test]
fn test_device_status_display() {
    let status = DeviceStatus::Mining;
    assert_eq!(format!("{:?}", status), "Mining");

    let status = DeviceStatus::Error("Test error".to_string());
    assert_eq!(format!("{:?}", status), "Error(\"Test error\")");
}

#[test]
fn test_device_stats_temperature_recording() {
    let mut stats = DeviceStats::new();

    assert!(stats.temperature_readings.is_empty());

    stats.record_temperature(65.0f32.to_bits());
    stats.record_temperature(70.0f32.to_bits());
    stats.record_temperature(68.0f32.to_bits());

    let sum: f32 = stats.temperature_readings.iter().map(|b| f32::from_bits(*b)).sum();
    let avg_temp = sum / stats.temperature_readings.len() as f32;
    assert!((avg_temp - 67.67).abs() < 0.1);
}

#[test]
fn test_device_stats_hashrate_recording() {
    let mut stats = DeviceStats::new();

    assert!(stats.hashrate_history.is_empty());

    stats.record_hashrate(35.0f64.to_bits());
    stats.record_hashrate(38.0f64.to_bits());
    stats.record_hashrate(37.0f64.to_bits());

    let sum: f64 = stats.hashrate_history.iter().map(|b| f64::from_bits(*b)).sum();
    let avg_hashrate = sum / stats.hashrate_history.len() as f64;
    assert!((avg_hashrate - 36.67).abs() < 0.1);
}

#[test]
fn test_device_config_and_info_integration() {
    let device_info = DeviceInfo::new_at(2000, "Test Integration Device".to_string(), "cpu-btc".to_string(), 0, NOW);

    let config = DeviceConfig {
        chain_id: 0,
        enabled: true,
        frequency: 600,
        voltage: 900,
        auto_tune: false,
        chip_count: 64,
        temperature_limit_bits: 80.0f32.to_bits(),
        fan_speed: Some(50),
    };

    assert!(config.enabled);
    assert_eq!(config.frequency, 600);
    assert_eq!(config.voltage, 900);
    assert_eq!(config.chip_count, 64);

    assert_eq!(device_info.id, 2000);
    assert_eq!(device_info.device_type, "cpu-btc");
    assert_eq!(device_info.chain_id, 0);
}

#[test]
fn reading_window_keeps_latest_hundred() {
    let mut stats = DeviceStats::new();
    for i in 0..150u32 {
        stats.record_temperature(i);
    }
    assert_eq!(stats.temperature_readings.len(), 100);
    assert_eq!(stats.temperature_readings[0], 50);
    assert_eq!(*stats.temperature_readings.last().unwrap(), 149);
}

#[test]
fn hash_target_comparison_is_little_endian() {
    let mut hash = [0u8; 32];
    let mut target = [0u8; 32];
    hash[31] = 0x01;
    target[31] = 0x02;
    assert!(hash_meets_target(&hash, &target));
    hash[31] = 0x03;
    assert!(!hash_meets_target(&hash, &target));
    hash[31] = 0x02;
    hash[0] = 0xFF;
    assert!(!hash_meets_target(&hash, &target));
    target[0] = 0xFF;
    assert!(hash_meets_target(&hash, &target));
}

#[test]
fn mining_with_easiest_target_finds_first_nonce() {
    let header = [0u8; 80];
    let target = [0xFFu8; 32];
    assert_eq!(mine_bitcoin_block(&header, &target, 7, 10), Some(7));
    let impossible = [0u8; 32];
    assert_eq!(mine_bitcoin_block(&header, &impossible, 7, 3), None);
}

#[test]
fn mining_matches_double_sha256() {
    let header = [0x11u8; 80];
    let mut target = [0u8; 32];
    target[31] = 0x0F;
    target[30] = 0xFF;
    let found = mine_bitcoin_block(&header, &target, 0, 100_000);
    let mut first = None;
    for nonce in 0u32..100_000 {
        let mut h = header;
        h[76..80].copy_from_slice(&nonce.to_le_bytes());
        let hash2 = Sha256::digest(Sha256::digest(h));
        let mut ok = true;
        for i in (0..32).rev() {
            if hash2[i] < target[i] {
                break;
            }
            if hash2[i] > target[i] {
                ok = false;
                break;
            }
        }
        if ok {
            first = Some(nonce);
            break;
        }
    }
    assert_eq!(found, first);
}

#[test]
fn chain_frames_and_parsing() {
    assert_eq!(detect_command(3), vec![0x55, 0xAA, 0x51, 3, 0, 0, 0, 0]);
    assert_eq!(pll_command(1, 0x1_2345), vec![0x55, 0xAA, 0x52, 1, 0x23, 0x45, 0, 0]);
    assert_eq!(command_frame(0x57, 2, 9, 8, 7, 6), vec![0x55, 0xAA, 0x57, 2, 9, 8, 7, 6]);
    assert!(chip_answered(&[0x55, 0xAA, 0, 0]));
    assert!(!chip_answered(&[0x55, 0xAA, 0]));
    assert!(!chip_answered(&[0x54, 0xAA, 0, 0]));
    assert_eq!(parse_result(&[0x55, 0xAA, 0x55, 9, 0x12, 0x34, 0x56, 0x78]), Some((0x12345678, 9)));
    assert_eq!(parse_result(&[0x55, 0xAA, 0x55, 9, 0, 0, 0, 0]), None);
    assert_eq!(parse_result(&[0x55, 0xAA, 0x55, 9, 1, 2, 3]), None);
    assert_eq!(parse_temperature(4, &[0x55, 0xAA, 0x57, 0, 0x02, 0x8A]).unwrap(), 650);
    match parse_temperature(4, &[0x00, 0xAA, 0x57, 0, 0x02, 0x8A]) {
        Err(DeviceError::CommunicationError { device_id, error }) => {
            assert_eq!(device_id, 4);
            assert_eq!(error, "Invalid temperature response");
        }
        other => panic!("unexpected {:?}", other),
    }
    let work = [7u8; 32];
    let frame = work_command(5, &work).unwrap();
    assert_eq!(frame.len(), 36);
    assert_eq!(&frame[..4], &[0x55, 0xAA, 0x54, 5]);
    assert!(matches!(work_command(5, &[1, 2, 3]), Err(DeviceError::InvalidConfig { .. })));
    assert_eq!(job_chip(5, 3), 2);
    assert_eq!(job_chip(300, 1000), 44);
}

#[test]
fn chip_scan_stops_after_silence() {
    let mut scan = ChipScan::new();
    let answers = [true, true, false, false, false, false, false, true];
    let mut probed = Vec::new();
    for a in answers.iter() {
        match scan.next_chip() {
            Some(chip) => {
                probed.push(chip);
                scan.record(*a);
            }
            None => break,
        }
    }
    assert_eq!(scan.chip_count(), 2);
    assert_eq!(probed, vec![0, 1, 2, 3, 4, 5, 6]);
    assert_eq!(scan.next_chip(), None);

    let mut empty = ChipScan::new();
    for _ in 0..10 {
        if empty.next_chip().is_none() {
            break;
        }
        empty.record(false);
    }
    assert_eq!(empty.chip_count(), 0);
}

#[test]
fn chain_state_bookkeeping() {
    let mut chain = ChainState::new(1);
    assert_eq!(chain.status, ChainStatus::Uninitialized);
    assert!(!chain.is_healthy());
    assert!(chain.finish_initialization(0).is_err());
    assert_eq!(chain.status, ChainStatus::Error("No chips detected".to_string()));
    assert!(chain.finish_initialization(3).is_ok());
    assert!(chain.is_healthy());
    assert_eq!(chain.queue_job(&[1, 2]).unwrap(), Some(1));
    assert_eq!(chain.queue_job(&[3]).unwrap(), Some(2));
    chain.result_queue.push((5, 1));
    chain.result_queue.push((6, 2));
    assert_eq!(chain.take_queued_result(), Some((6, 2)));
    chain.set_enabled(false);
    assert_eq!(chain.status, ChainStatus::Disabled);
    assert!(chain.queue_job(&[1]).is_err());
    assert_eq!(chain.take_queued_result(), None);
    chain.begin_reset();
    assert_eq!(chain.reset_count, 1);
    assert!(chain.work_queue.is_empty());
    chain.finish_reset();
    assert_eq!(chain.status, ChainStatus::Idle);
}

#[test]
fn maijie_driver_rules() {
    let driver = MaijieL7Driver::new();
    assert_eq!(driver.driver_name(), "Maijie L7");
    assert_eq!(driver.version(), "1.0.0");
    assert_eq!(driver.supported_devices(), vec!["maijie-l7", "l7"]);
    let mut config = driver.default_config();
    assert_eq!(config.chip_count, 76);
    assert!(driver.validate_config(&config).is_ok());
    config.frequency = 900;
    match driver.validate_config(&config) {
        Err(DeviceError::InvalidConfig { reason }) => assert_eq!(reason, "Frequency 900 MHz is out of range (100-800)"),
        other => panic!("unexpected {:?}", other),
    }
    config.frequency = 500;
    config.voltage = 500;
    match driver.validate_config(&config) {
        Err(DeviceError::InvalidConfig { reason }) => assert_eq!(reason, "Voltage 500 mV is out of range (600-1000)"),
        other => panic!("unexpected {:?}", other),
    }
    config.voltage = 850;
    config.chip_count = 200;
    match driver.validate_config(&config) {
        Err(DeviceError::InvalidConfig { reason }) => assert_eq!(reason, "Chip count 200 is too high (max 128)"),
        other => panic!("unexpected {:?}", other),
    }
    assert_eq!(driver.parse_device_id(1, &[0x55, 0xAA, 0x50, 0, 0, 0, 1, 2]).unwrap(), 258);
    assert!(driver.parse_device_id(1, &[0x55, 0xAA, 0x50]).is_err());
    let info = driver.detected_device(1, NOW);
    assert_eq!(info.name, "Maijie L7 Chain 1");
    assert_eq!(info.device_type, "maijie-l7");
    let hw = MaijieL7Hardware::new(3).ok().unwrap();
    assert_eq!(hw.chain_id(), 3);
    assert_eq!(hw.spi_response(&[1, 2, 3]), vec![0x55, 0xAA, 0, 0, 0, 0, 0, 0]);
    let mut header = [0u8; 80];
    header[0] = 9;
    header[31] = 7;
    header[32] = 5;
    let work = Work::new_at(1, "j".to_string(), [0u8; 32], header, 0, NOW);
    let job = prepare_job_data(&work);
    assert_eq!(job.len(), 32);
    assert_eq!(job[0], 9);
    assert_eq!(job[31], 7);
}

#[test]
fn virtual_driver_rules() {
    let driver = VirtualDeviceDriver::new();
    assert_eq!(driver.driver_name(), "virtual-device");
    assert_eq!(driver.supported_devices(), vec!["virtual"]);
    assert!(driver.validate_config(&DeviceConfig::default()).is_ok());
    let config = driver.default_config();
    assert_eq!(f32::from_bits(config.temperature_limit_bits), 80.0);
    let devices = driver.scan_devices_at(NOW);
    assert_eq!(devices.len(), 4);
    assert_eq!(devices[3].id, 1003);
    assert_eq!(devices[3].name, "Virtual Device 3");
    let info = initialized_info(devices[0].clone(), &config, NOW + 5);
    assert_eq!(info.status, DeviceStatus::Idle);
    assert_eq!(info.frequency, Some(600));
    assert_eq!(info.temperature_bits.map(f32::from_bits), Some(45.0));
    let mut busy = info.clone();
    busy.accepted_shares = 3;
    let reset = info_with_stats_reset(busy, NOW + 6);
    assert_eq!(reset.accepted_shares, 0);
    let mut work = Work::new_at(0x10, "j".to_string(), [0u8; 32], [0u8; 80], 0, NOW);
    assert!(check_work_fresh(&work, NOW).is_ok());
    work.expires_at = NOW - 1;
    match check_work_fresh(&work, NOW) {
        Err(DeviceError::InvalidConfig { reason }) => {
            assert_eq!(reason, "Work 00000000-0000-0000-0000-000000000010 has expired")
        }
        other => panic!("unexpected {:?}", other),
    }
}

#[test]
fn factory_choices() {
    assert_eq!(classify_device_type("BTC-Software"), Some(DeviceKind::Software));
    assert_eq!(classify_device_type("L7"), Some(DeviceKind::Asic));
    assert_eq!(classify_device_type("fpga"), None);
    assert_eq!(allocate_software_device_id(5), 1005);
    assert_eq!(allocate_software_device_id(1000), 1000);
    assert_eq!(allocate_asic_device_id(999), 2999);
    assert_eq!(allocate_asic_device_id(1000), 2000);
    assert_eq!(device_count_from(Some("16"), 4), 16);
    assert_eq!(device_count_from(Some("+16"), 4), 16);
    assert_eq!(device_count_from(Some("0"), 4), 4);
    assert_eq!(device_count_from(Some("1001"), 4), 4);
    assert_eq!(device_count_from(Some("x"), 4), 4);
    assert_eq!(software_device_count(None), 4);
    assert_eq!(asic_chain_count(None), 3);
    assert_eq!(fallback_kind("btc-software-1"), Some(DeviceKind::Software));
    assert_eq!(fallback_kind("maijie-l7-x"), Some(DeviceKind::Asic));
    assert_eq!(fallback_kind("gpu"), None);
    let listed = listed_devices(DeviceKind::Asic, 2, NOW);
    assert_eq!(listed[1].id, 2001);
    assert_eq!(listed[1].name, "ASIC Chain 1");
    assert_eq!(listed[1].device_type, "asic");

    let mut factory = UnifiedDeviceFactory::new();
    assert!(factory.initialize().is_err());
    factory.set_active_cores(vec!["gpu-0".to_string(), "btc-software-1".to_string(), "maijie-l7-2".to_string()]);
    assert!(factory.initialize().is_ok());
    assert_eq!(factory.find_core(DeviceKind::Software), Some("btc-software-1".to_string()));
    assert_eq!(factory.get_available_device_types(), vec!["btc-software".to_string(), "maijie-l7".to_string()]);
    let (core, config) = factory.plan_device_from_info(7, "asic", 2).unwrap();
    assert_eq!(core, "maijie-l7-2");
    assert_eq!(config.chip_count, 126);
    assert_eq!(config.chain_id, 2);
    assert!(matches!(factory.plan_device_from_info(7, "gpu", 2), Err(DeviceError::InvalidConfig { .. })));
    let (id, core) = factory.plan_device("CPU").unwrap();
    assert_eq!((id, core.as_str()), (1, "btc-software-1"));
    let (id, _) = factory.plan_device("asic").unwrap();
    assert_eq!(id, 2);

    let active = vec!["maijie-l7-0".to_string(), "cpu-btc-1".to_string()];
    assert_eq!(core_for_factory(&active, "Software Mining Core").unwrap(), "cpu-btc-1");
    assert!(core_for_factory(&active, "Other").is_err());
}

#[test]
fn architecture_rules() {
    let config = DeviceArchitectureConfig::default();
    assert_eq!(validate_device_configuration(&config, 0, 10, 0).unwrap(), 10);
    assert!(validate_device_configuration(&config, 0, 65, 0).is_err());
    match validate_device_configuration(&config, 120, 20, 0) {
        Err(DeviceError::InvalidConfig { reason }) => assert_eq!(reason, "Total device count 140 would exceed system limit 128"),
        other => panic!("unexpected {:?}", other),
    }
    let fixed = DeviceArchitectureConfig { scaling_strategy: ScalingStrategy::Fixed, ..config };
    assert_eq!(validate_device_configuration(&fixed, 0, 0, 0).unwrap(), 0);
    let adaptive = DeviceArchitectureConfig {
        scaling_strategy: ScalingStrategy::Adaptive { target_cpu_usage_bits: 80.0f64.to_bits() },
        ..config
    };
    assert_eq!(validate_device_configuration(&adaptive, 0, 10, 0).unwrap(), 1);
    assert_eq!(validate_device_configuration(&adaptive, 0, 10, 100).unwrap(), 64);

    let mut alloc = DeviceIdAllocator::new(DeviceIdStrategy::SegmentedByDevice);
    assert_eq!(alloc.allocate_id("fpga").unwrap(), 3000);
    assert_eq!(alloc.allocate_id("fpga").unwrap(), 3001);
    alloc.deallocate_id(3000);
    assert_eq!(alloc.allocate_id("fpga").unwrap(), 3000);

    let mut arch = UnifiedDeviceArchitecture::new(config);
    let ids = arch.allocate_device_ids("Software Mining Core", "software", 3).unwrap();
    assert_eq!(ids, vec![1000, 1001, 1002]);
    let stats = arch.get_architecture_stats();
    assert_eq!(stats.total_devices, 3);
    assert_eq!(stats.devices_per_core, vec![("Software Mining Core".to_string(), 3)]);
    arch.deallocate_device_ids("Software Mining Core", &ids).unwrap();
    let stats = arch.get_architecture_stats();
    assert_eq!(stats.total_devices, 0);
    assert!(stats.devices_per_core.is_empty());

    let mut small = UnifiedDeviceArchitecture::new(DeviceArchitectureConfig {
        device_id_strategy: DeviceIdStrategy::Sequential,
        ..config
    });
    assert_eq!(small.allocate_device_ids("c", "x", 2).unwrap(), vec![1, 2]);
}

#[test]
fn derived_architecture() {
    let mut cfg = Config::default();
    cfg.cores.enabled_cores = vec!["software".to_string()];
    let arch = derive_architecture_config(&cfg.devices, &cfg.cores).unwrap();
    assert_eq!(arch.max_devices_per_core, 64);
    assert_eq!(arch.scaling_strategy, ScalingStrategy::Dynamic { min_devices: 1, max_devices: 64 });
    assert_eq!(arch.resource_limits.max_memory_mb, 8192);
    assert_eq!(arch.resource_limits.max_total_devices, 128);
    cfg.cores.enabled_cores = vec!["asic".to_string()];
    let arch = derive_architecture_config(&cfg.devices, &cfg.cores).unwrap();
    assert_eq!(arch.max_devices_per_core, 4);
    assert_eq!(arch.scaling_strategy, ScalingStrategy::Fixed);
    assert_eq!(arch.resource_limits.max_memory_mb, 2048);
}

#[test]
fn mapper_allocates_per_core_type() {
    let mut mapper = DeviceCoreMapper::new();
    let _ = &mut mapper;
    let mut alloc = cgminer_rs::device::device_core_mapper::DeviceIdAllocator::new();
    assert_eq!(alloc.allocate_id("software").unwrap(), 1000);
    assert_eq!(alloc.allocate_id("asic").unwrap(), 2000);
    assert!(alloc.is_allocated(1000));
    alloc.deallocate_id(1000);
    assert!(!alloc.is_allocated(1000));
}

#[test]
fn active_devices_are_the_idle_and_mining_ones() {
    let mut infos: Vec<DeviceInfo> = (0..4u32)
        .map(|i| DeviceInfo::new_at(i, format!("d{}", i), "software".to_string(), i as u8, NOW))
        .collect();
    assert_eq!(active_device_count(&infos), 0);
    infos[0].update_status_at(DeviceStatus::Idle, NOW);
    infos[1].update_status_at(DeviceStatus::Mining, NOW);
    infos[2].update_status_at(DeviceStatus::Overheated, NOW);
    assert_eq!(active_device_count(&infos), 2);
    assert_eq!(active_device_count(&Vec::new()), 0);
}

#[test]
fn mining_rounds_advance_in_batches() {
    assert_eq!(mining_batch_size(0), 1000);
    assert_eq!(mining_batch_size(9_999), 1000);
    assert_eq!(mining_batch_size(50_000_000), 5_000_000);
    let header = [0u8; 80];
    let mut round = MiningRound::new(u32::MAX - 1);
    assert_eq!(round.mine_batch(&header, &[0u8; 32], 3), None);
    assert_eq!(round.total_hashes, 3);
    assert_eq!(round.next_nonce, 1);
    assert_eq!(round.mine_batch(&header, &[0xFFu8; 32], 5), Some(1));
    assert_eq!(round.total_hashes, 8);
    assert_eq!(round.next_nonce, 6);
    assert!(!work_round_expired(30_000));
    assert!(work_round_expired(30_001));
}

#[test]
fn cpu_core_description() {
    let info = cgminer_rs::get_core_info();
    assert_eq!(info.name, "CPU Bitcoin Mining Core");
    assert_eq!(info.core_type, cgminer_rs::core_info::CoreType::Custom("cpu_btc".to_string()));
    assert_eq!(info.version, "0.1.0");
    assert_eq!(info.description, "高性能CPU比特币挖矿核心，支持真实SHA256算法、无锁并发和智能调度");
    assert_eq!(info.author, "CGMiner Rust Team");
    assert_eq!(info.supported_devices, vec!["cpu".to_string(), "btc".to_string(), "sha256".to_string()]);
}

#[test]
fn share_difficulty_needs_two_zero_bytes_and_a_small_third() {
    assert!(cgminer_rs::device::virtual_device::check_share_difficulty(&[0, 0, 0x0f, 0xff]));
    assert!(!cgminer_rs::device::virtual_device::check_share_difficulty(&[0, 0, 0x10]));
    assert!(!cgminer_rs::device::virtual_device::check_share_difficulty(&[0, 1, 0]));
    assert!(!cgminer_rs::device::virtual_device::check_share_difficulty(&[1, 0, 0]));
}
