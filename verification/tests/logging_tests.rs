use cgminer_rs::logging::formatter::{
    create_separator, create_table_row, decimal_string, format_duration, format_duration_secs, format_latency,
    format_memory, format_network_traffic, format_status, target_style, CgminerFormatter, MiningFormatter,
};
use cgminer_rs::logging::{file_schedule, parse_log_level, FileSchedule, LogConfig, LogLevel, LogRotation};
use std::time::Duration;

fn float_memory(bytes: u64) -> String {
    let units = ["B", "KB", "MB", "GB", "TB"];
    let mut size = bytes as f64;
    let mut unit_index = 0;
    while size >= 1024.0 && unit_index < units.len() - 1 {
        size /= 1024.0;
        unit_index += 1;
    }
    format!("💾 {:.2} {}", size, units[unit_index])
}

fn float_traffic(bytes: u64) -> String {
    let units = ["B/s", "KB/s", "MB/s", "GB/s"];
    let mut size = bytes as f64;
    let mut unit_index = 0;
    while size >= 1024.0 && unit_index < units.len() - 1 {
        size /= 1024.0;
        unit_index += 1;
    }
    format!("🌐 {:.2} {}", size, units[unit_index])
}

#[test]
fn memory_sizes_exact_values() {
    assert_eq!(format_memory(0), "💾 0.00 B");
    assert_eq!(format_memory(1023), "💾 1023.00 B");
    assert_eq!(format_memory(1024), "💾 1.00 KB");
    assert_eq!(format_memory(1536), "💾 1.50 KB");
    assert_eq!(format_memory(5 * 1024 * 1024 * 1024), "💾 5.00 GB");
    assert_eq!(format_network_traffic(2048), "🌐 2.00 KB/s");
    assert_eq!(format_network_traffic(1u64 << 50), "🌐 1048576.00 GB/s");
}

#[test]
fn memory_sizes_match_floating_point_rendering() {
    let mut samples: Vec<u64> = vec![
        0, 1, 5, 1023, 1024, 1025, 1152, 1153, 1280, 1536, 10_000, 999_999, 1_048_575, 1_048_576,
        123_456_789, 1u64 << 40, (1u64 << 40) + 1, (1u64 << 53) - 1, 1u64 << 53, (1u64 << 53) + 1,
        (1u64 << 53) + 3, 12_345_678_901_234_567, u64::MAX, u64::MAX - 1, 1u64 << 63,
    ];
    let mut x: u64 = 0x9E37_79B9_7F4A_7C15;
    for _ in 0..3000 {
        x ^= x << 13;
        x ^= x >> 7;
        x ^= x << 17;
        samples.push(x >> (x % 64));
    }
    for k in 1..2000u64 {
        samples.push(k * 1024 / 200);
        samples.push(k * 128);
    }
    for b in samples {
        assert_eq!(format_memory(b), float_memory(b), "bytes {}", b);
        assert_eq!(format_network_traffic(b), float_traffic(b), "bytes {}", b);
    }
}

#[test]
fn durations() {
    assert_eq!(format_duration_secs(59), "⏱️ 59s");
    assert_eq!(format_duration_secs(61), "⏱️ 1m 1s");
    assert_eq!(format_duration_secs(3600), "⏱️ 1h 0m 0s");
    assert_eq!(format_duration_secs(90061), "⏱️ 1d 1h 1m 1s");
    assert_eq!(format_duration(Duration::from_millis(61_999)), "⏱️ 1m 1s");
}

#[test]
fn latency_status_and_decimals() {
    assert_eq!(format_latency(45), "\x1b[32m🕐 45 ms\x1b[0m");
    assert_eq!(format_latency(501), "\x1b[33m🕐 501 ms\x1b[0m");
    assert_eq!(format_latency(1001), "\x1b[31m🕐 1001 ms\x1b[0m");
    assert_eq!(format_status(true), "🟢 在线");
    assert_eq!(format_status(false), "🔴 离线");
    assert_eq!(decimal_string(0), "0");
    assert_eq!(decimal_string(1234567890), "1234567890");
}

#[test]
fn separators_and_rows() {
    assert_eq!(create_separator("ab", 10), "╔══╡ ab ╞══╗");
    assert_eq!(create_separator("ab", 11), "╔══╡ ab ╞═══╗");
    assert_eq!(create_table_row(&["a", "bcd"], &[4, 5]), "║ a  │ bcd ║");
    let columns = ["名字", "x", "longer text"];
    let widths = [6usize, 3, 8];
    let mut expected = String::from("║");
    for (i, (c, w)) in columns.iter().zip(widths.iter()).enumerate() {
        if i > 0 {
            expected.push_str("│");
        }
        expected.push_str(&format!(" {:<width$} ", c, width = w - 2));
    }
    expected.push_str("║");
    assert_eq!(create_table_row(&columns, &widths), expected);
    assert_eq!(create_table_row(&["toolong"], &[4]), "║ toolong ║");
}

#[test]
fn log_levels_and_rotation() {
    assert_eq!(parse_log_level("DEBUG"), LogLevel::Debug);
    assert_eq!(parse_log_level("Warn"), LogLevel::Warn);
    assert_eq!(parse_log_level("verbose"), LogLevel::Info);
    assert_eq!(file_schedule(LogRotation::Size(10)), FileSchedule::Daily);
    assert_eq!(file_schedule(LogRotation::Never), FileSchedule::Append);
    let config = LogConfig::default();
    assert_eq!(config.level, "info");
    assert_eq!(config.rotation, LogRotation::Daily);
    assert!(config.colored && config.pretty);
}

#[test]
fn line_prefixes() {
    let short = CgminerFormatter::new(false);
    assert_eq!(short.line_prefix("12:00:00", LogLevel::Error), "[12:00:00] ERR ");
    let colored = CgminerFormatter::new(true);
    assert_eq!(colored.line_prefix("12:00:00", LogLevel::Info), "[12:00:00] \x1b[32m   \x1b[0m ");
    let detailed = MiningFormatter::new(false);
    assert_eq!(detailed.line_prefix("t", LogLevel::Warn, "pool"), "t [ WARN] 🌊 POOL ");
    let (icon, color) = target_style("other", true);
    assert_eq!((icon, color), ("📝", "\x1b[37m"));
}
