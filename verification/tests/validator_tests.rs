use cgminer_rs::config_validator::{add_valid_paths, lookup_value, ConfigIssue, ConfigValidator, ConfigValue};
use cgminer_rs::logging::LogLevel;

fn table(entries: Vec<(&str, ConfigValue)>) -> ConfigValue {
    ConfigValue::Table(entries.into_iter().map(|(k, v)| (k.to_string(), v)).collect())
}

fn document() -> ConfigValue {
    table(vec![
        ("general", table(vec![("log_level", ConfigValue::Scalar), ("api_port", ConfigValue::Scalar)])),
        ("logging", table(vec![("level", ConfigValue::Scalar)])),
        ("performance", table(vec![("hashrate_optimization", table(vec![("x", ConfigValue::Scalar)]))])),
        (
            "pools",
            table(vec![(
                "pools",
                ConfigValue::Array(vec![
                    table(vec![("user", ConfigValue::Scalar)]),
                    table(vec![("user", ConfigValue::Scalar), ("username", ConfigValue::Scalar)]),
                    table(vec![("url", ConfigValue::Scalar), ("user", ConfigValue::Scalar)]),
                ]),
            )]),
        ),
        ("api", table(vec![("port", ConfigValue::Scalar)])),
    ])
}

#[test]
fn known_and_unused_settings() {
    let v = ConfigValidator::new();
    assert!(v.is_valid_path("general.log_level"));
    assert!(v.is_valid_path("web.static_files_dir"));
    assert!(!v.is_valid_path("general.api_port"));
    assert!(v.is_known_fake_config("limits.max_memory"));
    assert!(!v.is_known_fake_config("api.port"));
    assert_eq!(v.get_fake_config_description("logging.level"), "日志配置块已定义但在代码中完全未使用，这是虚假配置");
    assert_eq!(v.get_fake_config_description("other"), "此配置项在代码中未被使用");
}

#[test]
fn validation_finds_issues_in_order() {
    let mut v = ConfigValidator::new();
    v.validate_config_value(&document());
    let lines = v.print_results();
    assert_eq!(lines.len(), 6);
    assert_eq!(lines[0], (LogLevel::Error, "⚠️  发现 5 个配置问题:".to_string()));
    assert_eq!(lines[1].1, "🚨 虚假配置: logging.level - 日志配置块已定义但在代码中完全未使用，这是虚假配置");
    assert_eq!(lines[2].1, "🚨 虚假配置: performance.hashrate_optimization.x - 性能配置块已定义但在代码中完全未使用，这是虚假配置");
    assert_eq!(lines[3], (LogLevel::Warn, "⚠️  位置错误: general.api_port/api_bind → api.port/bind_address - API配置应该在[api]部分，不是[general]部分".to_string()));
    assert_eq!(lines[4].1, "🔄 字段不匹配: user → username - 矿池配置应使用'username'字段，不是'user'");
    assert_eq!(lines[5].1, lines[4].1);
    let report = v.generate_report();
    assert!(report.starts_with("# CGMiner-RS 配置验证报告\n\n⚠️  **发现 5 个配置问题**\n\n## 🚨 虚假配置 (定义但未使用)\n\n- **logging.level**: "));
    assert!(report.contains("## ⚠️  配置位置错误\n\n- **general.api_port/api_bind** → **api.port/bind_address**: "));
    assert!(report.contains("## 🔄 字段名不匹配\n\n- **user** → **username**: "));
    assert!(report.ends_with("4. **使用修复后的配置文件** - 参考 `software_core_max_cpu_fixed.toml`\n\n"));
}

#[test]
fn clean_document_reports_no_issue() {
    let mut v = ConfigValidator::new();
    v.validate_config_value(&table(vec![("api", table(vec![("port", ConfigValue::Scalar)]))]));
    assert_eq!(v.print_results(), vec![(LogLevel::Info, "✅ 配置验证通过 - 未发现问题".to_string())]);
    assert_eq!(v.generate_report(), "# CGMiner-RS 配置验证报告\n\n✅ **配置验证通过** - 未发现问题\n\n");
}

#[test]
fn lookup_takes_first_key() {
    let doc = table(vec![("a", ConfigValue::Scalar), ("b", ConfigValue::Array(vec![]))]);
    assert!(matches!(lookup_value(&doc, "b"), Some(ConfigValue::Array(_))));
    assert!(lookup_value(&doc, "c").is_none());
    assert!(lookup_value(&ConfigValue::Scalar, "a").is_none());
    let issue = ConfigIssue::MissingConfig { path: "p".to_string(), description: "d".to_string() };
    assert!(matches!(issue, ConfigIssue::MissingConfig { .. }));
}

#[test]
fn valid_paths_are_added_once_and_none_is_fake() {
    let mut paths: Vec<String> = Vec::new();
    add_valid_paths(&mut paths);
    assert_eq!(paths.len(), 51);
    assert_eq!(paths[0], "general.log_level");
    assert_eq!(paths[50], "web.template_dir");
    let again = paths.clone();
    add_valid_paths(&mut paths);
    assert_eq!(paths, again);
    let validator = ConfigValidator::new();
    for p in &paths {
        assert!(validator.is_valid_path(p));
        assert!(!validator.is_known_fake_config(p));
    }
    let mut mixed = vec!["api.port".to_string(), "custom.setting".to_string()];
    add_valid_paths(&mut mixed);
    assert_eq!(mixed.len(), 52);
    assert_eq!(mixed[0], "api.port");
    assert_eq!(mixed[1], "custom.setting");
    assert_eq!(mixed.iter().filter(|p| p.as_str() == "api.port").count(), 1);
}

#[test]
fn configuration_text_is_parsed_then_checked() {
    let mut v = ConfigValidator::new();
    assert!(v.validate_config_text("[api]\nport = 4028\n").is_ok());
    assert_eq!(v.print_results(), vec![(LogLevel::Info, "✅ 配置验证通过 - 未发现问题".to_string())]);
    let mut v = ConfigValidator::new();
    assert!(v.validate_config_text("[logging]\nlevel = \"info\"\n[api]\nport = 4028\n").is_ok());
    let lines = v.print_results();
    assert_eq!(lines.len(), 2);
    assert_eq!(lines[1].1, "🚨 虚假配置: logging.level - 日志配置块已定义但在代码中完全未使用，这是虚假配置");
    let mut v = ConfigValidator::new();
    let err = v.validate_config_text("[api\nport = ").unwrap_err();
    assert!(!err.is_empty());
    assert_eq!(v.print_results(), vec![(LogLevel::Info, "✅ 配置验证通过 - 未发现问题".to_string())]);
}
