use steelcal::errors::SteelCalError;
use steelcal::paths::{config_path, history_export_path, resolve_override_path, sidecar_config_candidates};

#[test]
fn resolve_override_path_prefers_exe_directory() {
    assert_eq!(
        resolve_override_path(Some("/tmp/steelcal/SimpleSteelCalculator")),
        "/tmp/steelcal/assets/gauge_tables.override.json"
    );
}

#[test]
fn resolve_override_path_falls_back_to_cwd_relative_assets() {
    assert_eq!(resolve_override_path(None), "assets/gauge_tables.override.json");
}

#[test]
fn config_and_history_paths() {
    assert_eq!(
        config_path(Ok("/home/u/.SimpleSteelCalculator".to_string())).unwrap(),
        "/home/u/.SimpleSteelCalculator/steel_calc_config.json"
    );
    assert_eq!(
        history_export_path(Ok("/home/u/.SimpleSteelCalculator".to_string())).unwrap(),
        "/home/u/.SimpleSteelCalculator/history.log"
    );
    match config_path(Err(SteelCalError::Config("Failed to determine user data directory.".to_string()))) {
        Err(e) => assert_eq!(e.user_message(), "Configuration error: Failed to determine user data directory."),
        Ok(_) => panic!("expected an error"),
    }
}

#[test]
fn sidecar_candidates_skip_active_and_duplicates() {
    assert_eq!(
        sidecar_config_candidates("/opt/app", Some("/opt/bundle"), "/home/u/cfg.json"),
        vec!["/opt/app/steel_calc_config.json", "/opt/bundle/steel_calc_config.json"]
    );
    assert_eq!(
        sidecar_config_candidates("/opt/app", Some("/opt/app/"), "/home/u/cfg.json"),
        vec!["/opt/app/steel_calc_config.json"]
    );
    assert!(sidecar_config_candidates("/opt/app", None, "/opt/app/steel_calc_config.json").is_empty());
}
