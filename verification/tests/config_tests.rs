use steelcal::catalog::builtin_gauge_tables;
use steelcal::config::{
    config_version, config_warnings, default_gauge, default_table, effective_config,
    normalize_config, plan_config_load, ConfigIssue, ConfigLoad, ConfigMap, ConfigValue,
    JsonNumber, CONFIG_SCHEMA_VERSION,
};
use steelcal::desktop::default_config_json;
use steelcal::cli::{plan_single, RunArgs};
use steelcal::gauges::DEFAULT_TABLE_NAME;

/// A configuration object read from JSON text, as the application reads one.
fn config(text: &str) -> ConfigMap {
    let value: serde_json::Value = serde_json::from_str(text).unwrap();
    let mut map = ConfigMap::new();
    for (k, v) in value.as_object().unwrap() {
        map.insert(k.clone(), to_config(v));
    }
    map
}

fn to_config(v: &serde_json::Value) -> ConfigValue {
    match v {
        serde_json::Value::Null => ConfigValue::Null,
        serde_json::Value::Bool(b) => ConfigValue::Bool(*b),
        serde_json::Value::Number(n) => ConfigValue::Number(if let Some(u) = n.as_u64() {
            JsonNumber::Integer(u as i128)
        } else if let Some(i) = n.as_i64() {
            JsonNumber::Integer(i as i128)
        } else {
            JsonNumber::Float(n.as_f64().unwrap().to_bits())
        }),
        serde_json::Value::String(s) => ConfigValue::Text(s.clone()),
        serde_json::Value::Array(_) => ConfigValue::Array(v.to_string()),
        serde_json::Value::Object(_) => ConfigValue::Object(v.to_string()),
    }
}

fn text(m: &ConfigMap, key: &str) -> Option<String> {
    match m.get(key) {
        Some(ConfigValue::Text(s)) => Some(s.clone()),
        _ => None,
    }
}

fn number(m: &ConfigMap, key: &str) -> Option<JsonNumber> {
    match m.get(key) {
        Some(ConfigValue::Number(n)) => Some(*n),
        _ => None,
    }
}

#[test]
fn normalize_config_drops_unknown_key_and_warns() {
    let tables = builtin_gauge_tables();
    let raw = config(r#"{ "some_random_key": 42 }"#);
    let cleaned = normalize_config(&raw, &tables);
    assert!(!cleaned.contains_key("some_random_key"));
    assert_eq!(cleaned.keys(), vec!["config_version"]);
    let warnings = config_warnings(&raw);
    assert_eq!(warnings.len(), 1);
    assert_eq!(warnings[0].key, "some_random_key");
    assert_eq!(warnings[0].issue, ConfigIssue::UnknownKey);
}

#[test]
fn normalize_config_drops_invalid_types() {
    let tables = builtin_gauge_tables();
    let raw = config(
        r#"{ "ui_font_size": true, "density_lb_ft3": "not a number", "default_table": 123 }"#,
    );
    let cleaned = normalize_config(&raw, &tables);
    assert!(!cleaned.contains_key("ui_font_size"));
    assert!(!cleaned.contains_key("density_lb_ft3"));
    assert!(!cleaned.contains_key("default_table"));
    let issues: Vec<(String, ConfigIssue)> =
        config_warnings(&raw).into_iter().map(|w| (w.key, w.issue)).collect();
    assert_eq!(
        issues,
        vec![
            ("density_lb_ft3".to_string(), ConfigIssue::InvalidType),
            ("ui_font_size".to_string(), ConfigIssue::InvalidType),
            ("default_table".to_string(), ConfigIssue::InvalidType),
        ]
    );
}

#[test]
fn normalize_config_drops_out_of_range_values() {
    let tables = builtin_gauge_tables();
    let raw = config(
        r#"{ "density_lb_ft3": 0, "ui_font_size": -1, "ui_heading_delta": -2, "ui_scaling": -0.5 }"#,
    );
    let cleaned = normalize_config(&raw, &tables);
    assert_eq!(cleaned.keys(), vec!["config_version"]);
    let issues: Vec<ConfigIssue> = config_warnings(&raw).into_iter().map(|w| w.issue).collect();
    assert_eq!(issues, vec![ConfigIssue::InvalidValue; 4]);
}

#[test]
fn valid_config_still_works_after_changes() {
    let tables = builtin_gauge_tables();
    let raw = config(
        r#"{
            "density_lb_ft3": 490.0,
            "ui_font_size": 14,
            "ui_heading_delta": 3,
            "ui_scaling": 1.25,
            "default_table": "HR/HRPO/CR",
            "default_gauge": "16"
        }"#,
    );
    let cleaned = normalize_config(&raw, &tables);
    assert_eq!(number(&cleaned, "density_lb_ft3"), Some(JsonNumber::Float(490.0f64.to_bits())));
    assert_eq!(number(&cleaned, "ui_font_size"), Some(JsonNumber::Integer(14)));
    assert_eq!(number(&cleaned, "ui_heading_delta"), Some(JsonNumber::Integer(3)));
    assert_eq!(number(&cleaned, "ui_scaling"), Some(JsonNumber::Float(1.25f64.to_bits())));
    assert_eq!(text(&cleaned, "default_table").as_deref(), Some("HR/HRPO/CR"));
    assert_eq!(text(&cleaned, "default_gauge").as_deref(), Some("16"));
    assert_eq!(number(&cleaned, "config_version"), Some(JsonNumber::Integer(1)));
    assert!(config_warnings(&raw).is_empty());
}

#[test]
fn normalize_config_canonicalizes_table_and_gauge() {
    let tables = builtin_gauge_tables();
    let raw = config(
        r#"{ "default_table": "hr/hrpo/cr/eg", "default_gauge": " 16.0 ", "density_lb_ft3": 500, "ui_scaling": 0 }"#,
    );
    let cleaned = normalize_config(&raw, &tables);
    assert_eq!(text(&cleaned, "default_table").as_deref(), Some(DEFAULT_TABLE_NAME));
    assert_eq!(text(&cleaned, "default_gauge").as_deref(), Some("16"));
    assert_eq!(number(&cleaned, "density_lb_ft3"), Some(JsonNumber::IntegerAsFloat(500)));
    assert_eq!(number(&cleaned, "ui_scaling"), Some(JsonNumber::IntegerAsFloat(0)));
    // A gauge the configured table lacks, and an unknown table, are dropped.
    let raw = config(r#"{ "default_table": "steel", "default_gauge": "1-1/2" }"#);
    let cleaned = normalize_config(&raw, &tables);
    assert!(!cleaned.contains_key("default_table"));
    assert!(!cleaned.contains_key("default_gauge"));
    let raw = config(r#"{ "default_table": "HOT ROLLED PLATE", "default_gauge": "1-1/2" }"#);
    let cleaned = normalize_config(&raw, &tables);
    assert_eq!(text(&cleaned, "default_gauge").as_deref(), Some("1-1/2"));
}

#[test]
fn negative_zero_scaling_is_kept() {
    let tables = builtin_gauge_tables();
    let raw = config(r#"{ "ui_scaling": -0.0 }"#);
    let cleaned = normalize_config(&raw, &tables);
    assert_eq!(number(&cleaned, "ui_scaling"), Some(JsonNumber::Float((-0.0f64).to_bits())));
}

#[test]
fn default_table_and_gauge_fall_back() {
    let tables = builtin_gauge_tables();
    let empty = ConfigMap::new();
    assert_eq!(default_table(&empty, &tables), DEFAULT_TABLE_NAME);
    // Without a configured gauge the documented default gauge "16" is used.
    assert_eq!(default_gauge(&empty, &tables, None), "16");
    assert_eq!(default_gauge(&empty, &tables, Some("stainless")), "16");
    // A table without gauge 16 falls back to its first key.
    assert_eq!(default_gauge(&empty, &tables, Some("HOT ROLLED PLATE")), "1");
    assert_eq!(default_gauge(&empty, &tables, Some("no such table")), "16");
    let cfg = config(r#"{ "default_gauge": "16" }"#);
    assert_eq!(default_gauge(&cfg, &tables, None), "16");
    let cfg = config(r#"{ "default_table": "STAINLESS", "default_gauge": "18" }"#);
    assert_eq!(default_table(&cfg, &tables), "STAINLESS");
    assert_eq!(default_gauge(&cfg, &tables, None), "18");
    assert_eq!(default_gauge(&cfg, &tables, Some("aluminized")), "18");
    assert_eq!(default_gauge(&cfg, &tables, Some("HOT ROLLED PLATE")), "1");
}

#[test]
fn table_none_uses_config_default_table() {
    let tables = builtin_gauge_tables();
    let cfg = config(r#"{ "default_table": "STAINLESS" }"#);
    let effective = effective_config(&cfg, &tables);
    assert_eq!(effective.default_table, "STAINLESS");
    assert_eq!(effective.default_gauge, "16");
}

#[test]
fn table_none_no_config_uses_builtin_default() {
    let tables = builtin_gauge_tables();
    let effective = effective_config(&ConfigMap::new(), &tables);
    assert_eq!(effective.default_table, DEFAULT_TABLE_NAME);
    assert_eq!(effective.default_gauge, "16");
    assert_eq!(effective.ui_font_size, 12);
    assert_eq!(effective.ui_heading_delta, 3);
    assert_eq!(effective.density_lb_ft3, None);
    assert_eq!(effective.ui_scaling, None);
}

#[test]
fn effective_config_reads_numbers() {
    let tables = builtin_gauge_tables();
    let cfg = config(r#"{ "density_lb_ft3": 501.5, "ui_font_size": 16, "ui_heading_delta": 1.5 }"#);
    let effective = effective_config(&cfg, &tables);
    assert_eq!(effective.density_lb_ft3, Some(JsonNumber::Float(501.5f64.to_bits())));
    assert_eq!(effective.ui_font_size, 16);
    assert_eq!(effective.ui_heading_delta, 3);
}

#[test]
fn unversioned_config_is_upgraded_and_rewritten() {
    let tables = builtin_gauge_tables();
    let raw = config(r#"{ "density_lb_ft3": 500.0, "default_table": "steel", "default_gauge": "16" }"#);
    assert_eq!(config_version(&raw), None);
    match plan_config_load(&raw, &tables) {
        ConfigLoad::Normalized { cleaned, rewrite } => {
            assert!(rewrite);
            assert_eq!(number(&cleaned, "config_version"), Some(JsonNumber::Integer(CONFIG_SCHEMA_VERSION as i128)));
            assert_eq!(number(&cleaned, "density_lb_ft3"), Some(JsonNumber::Float(500.0f64.to_bits())));
        }
        ConfigLoad::Defaults => panic!("expected a normalized configuration"),
    }
}

#[test]
fn current_version_config_loads_without_rewrite() {
    let tables = builtin_gauge_tables();
    let raw = config(
        r#"{ "config_version": 1, "density_lb_ft3": 501.0, "default_table": "HR/HRPO/CR", "default_gauge": "16" }"#,
    );
    assert_eq!(config_version(&raw), Some(1));
    match plan_config_load(&raw, &tables) {
        ConfigLoad::Normalized { cleaned, rewrite } => {
            assert!(!rewrite);
            assert_eq!(cleaned.len(), 4);
        }
        ConfigLoad::Defaults => panic!("expected a normalized configuration"),
    }
    // The same version with an integer density is rewritten (as a float).
    let raw = config(r#"{ "config_version": 1, "density_lb_ft3": 501 }"#);
    match plan_config_load(&raw, &tables) {
        ConfigLoad::Normalized { rewrite, .. } => assert!(rewrite),
        ConfigLoad::Defaults => panic!("expected a normalized configuration"),
    }
}

#[test]
fn newer_version_config_is_preserved_and_runtime_uses_defaults() {
    let tables = builtin_gauge_tables();
    let raw = config(
        r#"{ "config_version": 2, "density_lb_ft3": 999.0, "default_table": "HR/HRPO/CR", "future_key": "keep-me" }"#,
    );
    assert_eq!(config_version(&raw), Some(2));
    assert!(matches!(plan_config_load(&raw, &tables), ConfigLoad::Defaults));
}

#[test]
fn config_version_requires_u32_integer() {
    assert_eq!(config_version(&config(r#"{ "config_version": -1 }"#)), None);
    assert_eq!(config_version(&config(r#"{ "config_version": 1.0 }"#)), None);
    assert_eq!(config_version(&config(r#"{ "config_version": 4294967296 }"#)), None);
    assert_eq!(config_version(&config(r#"{ "config_version": 4294967295 }"#)), Some(u32::MAX));
}

#[test]
fn default_config_json_is_valid_and_contains_all_keys() {
    let text = default_config_json();
    let parsed: serde_json::Value = serde_json::from_str(&text).unwrap();
    let obj = parsed.as_object().unwrap();
    for key in ["density_lb_ft3", "default_table", "default_gauge", "ui_font_size", "ui_heading_delta", "ui_scaling"] {
        assert!(obj.contains_key(key), "missing {key}");
    }
    assert_eq!(obj["density_lb_ft3"].as_f64(), Some(490.0));
    assert_eq!(obj["default_table"].as_str(), Some("HR/HRPO/CR"));
    assert_eq!(obj["default_gauge"].as_str(), Some("16"));
    assert_eq!(serde_json::to_string_pretty(&parsed).unwrap(), text);
}

/// The log lines the configuration in `text` gives, each offending value
/// written as JSON.
fn warning_messages(text: &str) -> Vec<String> {
    let value: serde_json::Value = serde_json::from_str(text).unwrap();
    let raw = config(text);
    config_warnings(&raw)
        .iter()
        .map(|w| w.message(&value[w.key.as_str()].to_string()))
        .collect()
}

#[test]
fn normalize_config_warns_on_unknown_key() {
    let tables = builtin_gauge_tables();
    let text = r#"{ "some_random_key": 42 }"#;
    let cleaned = normalize_config(&config(text), &tables);
    assert!(!cleaned.contains_key("some_random_key"), "Unknown key should be dropped");
    let messages = warning_messages(text);
    assert!(
        messages.iter().any(|m| m.contains("some_random_key") && m.contains("unknown key")),
        "Expected warning about unknown key 'some_random_key', got: {messages:?}"
    );
}

#[test]
fn normalize_config_warns_on_invalid_type_for_known_key() {
    let tables = builtin_gauge_tables();
    let text = r#"{ "ui_font_size": true }"#;
    let cleaned = normalize_config(&config(text), &tables);
    assert!(!cleaned.contains_key("ui_font_size"), "Invalid-type key should be dropped");
    let messages = warning_messages(text);
    assert!(
        messages.iter().any(|m| m.contains("ui_font_size") && m.contains("invalid type")),
        "Expected warning about invalid type for 'ui_font_size', got: {messages:?}"
    );
}

#[test]
fn normalize_config_warns_on_invalid_type_density() {
    let tables = builtin_gauge_tables();
    let text = r#"{ "density_lb_ft3": "not a number" }"#;
    let cleaned = normalize_config(&config(text), &tables);
    assert!(!cleaned.contains_key("density_lb_ft3"));
    let messages = warning_messages(text);
    assert!(
        messages.iter().any(|m| m.contains("density_lb_ft3") && m.contains("invalid type")),
        "Expected warning about invalid type for 'density_lb_ft3', got: {messages:?}"
    );
}

#[test]
fn normalize_config_warns_on_invalid_type_default_table() {
    let tables = builtin_gauge_tables();
    let text = r#"{ "default_table": 123 }"#;
    let cleaned = normalize_config(&config(text), &tables);
    assert!(!cleaned.contains_key("default_table"));
    let messages = warning_messages(text);
    assert!(
        messages.iter().any(|m| m.contains("default_table") && m.contains("invalid type")),
        "Expected warning about invalid type for 'default_table', got: {messages:?}"
    );
}

#[test]
fn warning_messages_name_key_rule_and_value() {
    assert_eq!(
        warning_messages(
            r#"{ "extra": 1, "ui_font_size": true, "ui_heading_delta": -1, "density_lb_ft3": 0, "default_gauge": 7 }"#
        ),
        vec![
            "Config: unknown key 'extra' ignored",
            "Config: key 'density_lb_ft3' has invalid value (0): must be > 0",
            "Config: key 'ui_font_size' has invalid type: expected integer, got true",
            "Config: key 'ui_heading_delta' has invalid value (-1): must be >= 0",
            "Config: key 'default_gauge' has invalid type: expected string, got 7",
        ]
    );
}

#[test]
fn table_some_overrides_config_default_table() {
    let tables = builtin_gauge_tables();
    let cfg = config(r#"{ "default_table": "STAINLESS" }"#);
    let effective = effective_config(&cfg, &tables);
    assert_eq!(effective.default_table, "STAINLESS");
    let args = RunArgs {
        has_width: true,
        has_length: true,
        table: Some("GALV/JK/BOND".to_string()),
        ..no_args()
    };
    let plan = plan_single(&args, &tables, &effective.default_table, &effective.default_gauge).unwrap();
    assert_eq!(plan.sheet.unwrap().table, "GALV/JK/BOND");
}

fn no_args() -> RunArgs {
    RunArgs {
        list_tables: false,
        list_gauges: None,
        input_file: None,
        has_width: false,
        has_length: false,
        has_psf: false,
        gauge: None,
        table: None,
        has_thickness: false,
        has_density: false,
        has_coil_id: false,
        has_coil_width: false,
        has_coil_thickness: false,
        has_coil_weight: false,
        has_scrap_actual: false,
        has_scrap_ending: false,
        has_scrap_base_cost: false,
        has_scrap_processing_cost: false,
        pricing_set: false,
        qty: 1,
    }
}

#[test]
fn steel_density_sets_the_density() {
    let tables = builtin_gauge_tables();
    let raw = config(
        r#"{ "config_version": 1, "default_table": "HR/HRPO/CR", "default_gauge": "16", "steel_density": 500.0 }"#,
    );
    let cleaned = normalize_config(&raw, &tables);
    assert!(cleaned.contains_key("steel_density"));
    assert!(config_warnings(&raw).is_empty());
    let effective = effective_config(&cleaned, &tables);
    assert_eq!(effective.density_lb_ft3, Some(JsonNumber::Float(500.0f64.to_bits())));
    assert_eq!(effective.default_table, "HR/HRPO/CR");
    assert_eq!(effective.default_gauge, "16");

    // The same positive-number rule as density_lb_ft3; density_lb_ft3 wins.
    let raw = config(r#"{ "steel_density": -1 }"#);
    assert!(!normalize_config(&raw, &tables).contains_key("steel_density"));
    assert_eq!(
        warning_messages(r#"{ "steel_density": -1 }"#),
        vec!["Config: key 'steel_density' has invalid value (-1): must be > 0"]
    );
    let raw = config(r#"{ "steel_density": 500.0, "density_lb_ft3": 480 }"#);
    let effective = effective_config(&normalize_config(&raw, &tables), &tables);
    assert_eq!(effective.density_lb_ft3, Some(JsonNumber::IntegerAsFloat(480)));
}
