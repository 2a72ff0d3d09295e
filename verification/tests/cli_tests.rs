use steelcal::catalog::builtin_gauge_tables;
use steelcal::cli::{missing_size_message, plan_single, plan_start, RunArgs, RunStart, SheetSource};

fn args() -> RunArgs {
    RunArgs {
        list_tables: false,
        list_gauges: None,
        input_file: None,
        has_width: false,
        has_length: false,
        has_psf: false,
        gauge: None,
        table: None,
        has_thickness: false,
        has_density: false,
        has_coil_id: false,
        has_coil_width: false,
        has_coil_thickness: false,
        has_coil_weight: false,
        has_scrap_actual: false,
        has_scrap_ending: false,
        has_scrap_base_cost: false,
        has_scrap_processing_cost: false,
        pricing_set: false,
        qty: 1,
    }
}

fn sheet_args() -> RunArgs {
    RunArgs { has_width: true, has_length: true, ..args() }
}

const VALID: &str = "ALUMINIZED, ALUMINUM, GALV/JK/BOND, HOT ROLLED PLATE, HR FLOOR PLATE, HR/HRPO/CR, STAINLESS";

#[test]
fn list_tables_comes_first() {
    let tables = builtin_gauge_tables();
    let a = RunArgs { list_tables: true, list_gauges: Some("x".to_string()), ..args() };
    assert!(matches!(plan_start(&a, &tables), Ok(RunStart::ListTables)));
}

#[test]
fn list_gauges_normalizes_or_rejects_table() {
    let tables = builtin_gauge_tables();
    let a = RunArgs { list_gauges: Some("hr/hrpo/cr/eg".to_string()), ..args() };
    match plan_start(&a, &tables) {
        Ok(RunStart::ListGauges { table }) => assert_eq!(table, "HR/HRPO/CR"),
        _ => panic!("expected a gauge listing"),
    }
    let a = RunArgs { list_gauges: Some("steel".to_string()), ..args() };
    match plan_start(&a, &tables) {
        Err(m) => assert_eq!(m, format!("unknown table 'steel'. Choose one of: {VALID}")),
        _ => panic!("expected an error"),
    }
}

#[test]
fn input_file_rejects_single_run_flags() {
    let tables = builtin_gauge_tables();
    let a = RunArgs { input_file: Some("jobs.json".to_string()), ..args() };
    match plan_start(&a, &tables) {
        Ok(RunStart::Batch { input_file }) => assert_eq!(input_file, "jobs.json"),
        _ => panic!("expected a batch run"),
    }
    for a in [
        RunArgs { input_file: Some("j".to_string()), has_width: true, ..args() },
        RunArgs { input_file: Some("j".to_string()), qty: 2, ..args() },
        RunArgs { input_file: Some("j".to_string()), pricing_set: true, ..args() },
        RunArgs { input_file: Some("j".to_string()), table: Some("t".to_string()), ..args() },
    ] {
        match plan_start(&a, &tables) {
            Err(m) => assert_eq!(m, "--input-file cannot be combined with single-run calculation flags"),
            _ => panic!("expected an error"),
        }
    }
    assert!(matches!(plan_start(&args(), &tables), Ok(RunStart::Single)));
}

fn single_error(a: RunArgs) -> String {
    let tables = builtin_gauge_tables();
    match plan_single(&a, &tables, "HR/HRPO/CR", "16") {
        Err(m) => m,
        Ok(_) => panic!("expected an error"),
    }
}

#[test]
fn conflicting_psf_sources_are_rejected() {
    assert_eq!(
        single_error(RunArgs { gauge: Some("16".to_string()), has_psf: true, ..sheet_args() }),
        "Cannot specify both --gauge and --psf. Use one or the other."
    );
    assert_eq!(
        single_error(RunArgs { gauge: Some("16".to_string()), has_thickness: true, ..sheet_args() }),
        "Cannot specify both --gauge and --thickness. Use one or the other."
    );
    assert_eq!(
        single_error(RunArgs { has_psf: true, has_thickness: true, ..sheet_args() }),
        "Cannot specify both --psf and --thickness. Use one or the other."
    );
}

#[test]
fn missing_dimensions_are_rejected() {
    assert_eq!(single_error(args()), "--width is required for sheet calculations");
    assert_eq!(
        single_error(RunArgs { has_length: true, ..args() }),
        "--width is required for sheet calculations"
    );
    assert_eq!(
        single_error(RunArgs { has_width: true, ..args() }),
        "--length is required when --width is provided"
    );
    assert_eq!(
        single_error(RunArgs { table: Some("steel".to_string()), ..sheet_args() }),
        format!("unknown table 'steel'. Choose one of: {VALID}")
    );
}

#[test]
fn sheet_plan_picks_source_and_table() {
    let tables = builtin_gauge_tables();
    let plan = plan_single(&sheet_args(), &tables, "HR/HRPO/CR", "18").unwrap();
    let sheet = plan.sheet.unwrap();
    assert_eq!(sheet.table, "HR/HRPO/CR");
    assert!(matches!(sheet.source, SheetSource::Gauge { ref key } if key == "18"));
    assert!(sheet.table_note.is_none());
    assert!(plan.cost);
    assert!(plan.coil.is_none() && plan.scrap.is_none());

    let a = RunArgs { table: Some("hr floor plate".to_string()), gauge: Some("1/4".to_string()), ..sheet_args() };
    let sheet = plan_single(&a, &tables, "HR/HRPO/CR", "16").unwrap().sheet.unwrap();
    assert_eq!(sheet.table, "HR FLOOR PLATE");
    assert!(matches!(sheet.source, SheetSource::Gauge { ref key } if key == "1/4"));
    assert_eq!(sheet.table_note.as_deref(), Some("(normalized table -> 'HR FLOOR PLATE')"));

    let a = RunArgs { table: Some("hr floor plate".to_string()), has_psf: true, ..sheet_args() };
    let sheet = plan_single(&a, &tables, "HR/HRPO/CR", "16").unwrap().sheet.unwrap();
    assert!(matches!(sheet.source, SheetSource::Psf));
    assert!(sheet.table_note.is_none());

    let a = RunArgs { has_thickness: true, ..sheet_args() };
    let sheet = plan_single(&a, &tables, "STAINLESS", "16").unwrap().sheet.unwrap();
    assert!(matches!(sheet.source, SheetSource::Thickness));
    assert_eq!(sheet.table, "STAINLESS");
}

#[test]
fn coil_and_scrap_steps() {
    let tables = builtin_gauge_tables();
    let a = RunArgs { has_coil_weight: true, ..args() };
    let plan = plan_single(&a, &tables, "HR/HRPO/CR", "16").unwrap();
    assert!(plan.sheet.is_none() && !plan.cost);
    match plan.coil {
        Some(Err(m)) => assert_eq!(m, "--coil-thickness is required when no sheet calculation is performed"),
        _ => panic!("expected a coil error"),
    }
    let a = RunArgs { has_coil_weight: true, has_coil_thickness: true, ..args() };
    match plan_single(&a, &tables, "HR/HRPO/CR", "16").unwrap().coil {
        Some(Err(m)) => assert_eq!(m, "--coil-width is required when no sheet calculation is performed"),
        _ => panic!("expected a coil error"),
    }
    let a = RunArgs { has_coil_weight: true, has_coil_width: true, ..sheet_args() };
    match plan_single(&a, &tables, "HR/HRPO/CR", "16").unwrap().coil {
        Some(Ok(c)) => {
            assert!(c.thickness_from_sheet);
            assert!(!c.width_from_sheet);
        }
        _ => panic!("expected a coil step"),
    }
    let a = RunArgs { has_scrap_actual: true, ..args() };
    match plan_single(&a, &tables, "HR/HRPO/CR", "16").unwrap().scrap {
        Some(Err(m)) => assert_eq!(m, "--scrap-ending is required for scrap calculations"),
        _ => panic!("expected a scrap error"),
    }
    let a = RunArgs {
        has_scrap_actual: true,
        has_scrap_ending: true,
        has_scrap_base_cost: true,
        has_scrap_processing_cost: true,
        ..args()
    };
    assert!(matches!(plan_single(&a, &tables, "HR/HRPO/CR", "16").unwrap().scrap, Some(Ok(()))));
}

#[test]
fn missing_size_messages() {
    assert_eq!(missing_size_message("99", "HR/HRPO/CR", &[]), "Size '99' not in HR/HRPO/CR table.");
    let s = vec!["30".to_string(), "29".to_string(), "28".to_string()];
    assert_eq!(
        missing_size_message("99", "HR/HRPO/CR", &s),
        "Size '99' not in HR/HRPO/CR table. Did you mean one of: '30', '29', '28'?"
    );
}

fn currency(value: f64) -> String {
    let raw = format!("{:.2}", value.abs());
    let (whole, fraction) = raw.split_once('.').unwrap();
    steelcal::cli::format_amount(value < 0.0, whole, fraction)
}

#[test]
fn format_currency_groups_thousands() {
    assert_eq!(currency(0.0), "0.00");
    assert_eq!(currency(1.5), "1.50");
    assert_eq!(currency(1234.56), "1,234.56");
    assert_eq!(currency(1234567.89), "1,234,567.89");
    assert_eq!(currency(-42.10), "-42.10");
    assert_eq!(currency(-1234567.89), "-1,234,567.89");
    assert_eq!(currency(-0.0), "0.00");
    assert_eq!(currency(999_999_999.99), "999,999,999.99");
    assert_eq!(currency(999.99), "999.99");
    assert_eq!(currency(1000.00), "1,000.00");
    assert_eq!(currency(1.999), "2.00");
    assert_eq!(currency(1_234_567_890.12), "1,234,567,890.12");
}
