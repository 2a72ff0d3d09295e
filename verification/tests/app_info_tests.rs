use steelcal::errors::{ensure, SteelCalError};
use steelcal::inputs::parse_int_text;
use steelcal::{PriceMode, APP_COPYRIGHT, APP_DATA_DIRNAME, APP_VERSION, CONFIG_FILENAME};

#[test]
fn app_version_matches_cargo_pkg_version() {
    assert_eq!(APP_VERSION, "0.1.2");
}

#[test]
fn app_copyright_exists() {
    assert!(!APP_COPYRIGHT.is_empty());
    assert!(APP_COPYRIGHT.contains("Harbor Pipe & Steel Inc."));
}

#[test]
fn price_mode_display() {
    assert_eq!(PriceMode::PerLb.to_string(), "per lb");
    assert_eq!(PriceMode::PerFt2.to_string(), "per ft²");
    assert_eq!(PriceMode::PerSheet.to_string(), "per sheet");
}

#[test]
fn file_names() {
    assert_eq!(APP_DATA_DIRNAME, "SimpleSteelCalculator");
    assert_eq!(CONFIG_FILENAME, "steel_calc_config.json");
}

#[test]
fn error_user_message_validation() {
    let err = SteelCalError::validation("Width must be > 0".to_string());
    assert_eq!(err.user_message(), "Width must be > 0");
}

#[test]
fn error_user_message_lookup() {
    let err = SteelCalError::lookup("Size '99' not in HR table.".to_string());
    assert_eq!(err.user_message(), "Size '99' not in HR table.");
}

#[test]
fn error_user_message_config() {
    let err = SteelCalError::config("bad config".to_string());
    assert_eq!(err.user_message(), "Configuration error: bad config");
}

#[test]
fn error_user_message_data() {
    let err = SteelCalError::data("corrupt".to_string());
    assert_eq!(err.user_message(), "Data error: corrupt");
}

#[test]
fn error_user_message_io_and_json() {
    assert_eq!(SteelCalError::Io("not found".to_string()).user_message(), "File error: not found");
    assert_eq!(
        SteelCalError::Json("EOF".to_string()).user_message(),
        "Invalid data format: EOF"
    );
}

#[test]
fn ensure_passes_or_gives_data_error() {
    assert!(ensure(true, "never").is_ok());
    match ensure(false, "round_up parity failed") {
        Err(SteelCalError::Data(m)) => assert_eq!(m, "round_up parity failed"),
        _ => panic!("expected a data error"),
    }
}

fn message(r: Result<i32, SteelCalError>) -> String {
    match r {
        Err(SteelCalError::Validation(m)) => m,
        other => panic!("expected a validation error, got {other:?}"),
    }
}

#[test]
fn parse_int_text_reads_integers() {
    assert_eq!(parse_int_text("  42 ", "Quantity", None).unwrap(), 42);
    assert_eq!(parse_int_text("-7", "Quantity", None).unwrap(), -7);
    assert_eq!(parse_int_text("+3", "Quantity", None).unwrap(), 3);
    assert_eq!(parse_int_text("2147483647", "Quantity", None).unwrap(), i32::MAX);
    assert_eq!(parse_int_text("-2147483648", "Quantity", None).unwrap(), i32::MIN);
    assert_eq!(parse_int_text("007", "Quantity", None).unwrap(), 7);
}

#[test]
fn parse_int_text_blank_uses_default_or_requires() {
    assert_eq!(parse_int_text("   ", "Quantity", Some(1)).unwrap(), 1);
    assert_eq!(message(parse_int_text("", "Quantity", None)), "Quantity is required.");
}

#[test]
fn parse_int_text_rejects_non_integers() {
    for bad in ["1.5", "abc", "2147483648", "-2147483649", "+", "-", "1 2", "+-1", "99999999999999999999"] {
        assert_eq!(
            message(parse_int_text(bad, "Quantity", None)),
            "Quantity must be an integer.",
            "input {bad}"
        );
    }
}
