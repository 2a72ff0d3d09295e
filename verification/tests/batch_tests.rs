use steelcal::batch::{
    batch_options_error, coil_job_error, is_float_literal, opt_i32_or_raw, opt_string_or_raw,
    csv_jobs_from_records, is_csv_extension, parse_csv_batch_jobs, CsvRecords, partition_rows, plan_batch_sheet, scrap_job_error, BatchJobType, SheetJobFields,
};
use steelcal::cli::SheetSource;

fn float_ok(s: &str) -> bool {
    is_float_literal(&s.chars().collect())
}

#[test]
fn float_literal_syntax_matches_parse() {
    for s in [
        "1", "1.", ".5", "1.5", "-2", "+3.25", "1e5", "1E-5", "2.5e+3", "inf", "-Infinity", "NaN",
        "007", "0.0",
    ] {
        assert!(float_ok(s), "{s}");
        assert!(s.parse::<f64>().is_ok(), "{s}");
    }
    for s in ["", ".", "-", "1..2", "1e", "e5", "1e+", "abc", "1,5", " 1", "1-", "infinit", "--1", "1.2.3"] {
        assert!(!float_ok(s), "{s}");
        assert!(s.parse::<f64>().is_err(), "{s}");
    }
}

#[test]
fn parse_batch_jobs_csv_preserves_row_order() {
    let input = b"width,length,qty,gauge\n48,96,1,16\n36,120,2,14\n";
    let jobs = parse_csv_batch_jobs(input).unwrap();
    assert_eq!(jobs.len(), 2);
    assert_eq!(jobs[0].row_index, 0);
    assert_eq!(jobs[1].row_index, 1);
    assert_eq!(jobs[0].job.as_ref().unwrap().gauge.as_deref(), Some("16"));
    assert_eq!(jobs[1].job.as_ref().unwrap().gauge.as_deref(), Some("14"));
    assert_eq!(jobs[1].job.as_ref().unwrap().qty, Some(2));
    assert_eq!(jobs[1].job.as_ref().unwrap().width.as_deref(), Some("36"));
    assert!(jobs[0].parse_error.is_none());
    assert!(jobs[1].parse_error.is_none());
    assert_eq!(
        jobs[0].raw_fields,
        vec![
            ("width".to_string(), "48".to_string()),
            ("length".to_string(), "96".to_string()),
            ("qty".to_string(), "1".to_string()),
            ("gauge".to_string(), "16".to_string()),
        ]
    );
}

#[test]
fn csv_headers_are_trimmed_and_lower_cased() {
    let input = b" Width , LENGTH ,Psf\n10, 20 , 2.5\n";
    let jobs = parse_csv_batch_jobs(input).unwrap();
    let job = jobs[0].job.as_ref().unwrap();
    assert_eq!(job.length.as_deref(), Some("20"));
    assert_eq!(job.psf.as_deref(), Some("2.5"));
}

#[test]
fn csv_missing_headers_and_bad_cells() {
    match parse_csv_batch_jobs(b"length,gauge\n1,2\n") {
        Err(m) => assert_eq!(m, "missing required CSV header 'width'"),
        Ok(_) => panic!("expected an error"),
    }
    match parse_csv_batch_jobs(b"width,gauge\n1,2\n") {
        Err(m) => assert_eq!(m, "missing required CSV header 'length'"),
        Ok(_) => panic!("expected an error"),
    }
    let jobs = parse_csv_batch_jobs(b"width,length,qty\nabc,1,2\n5,6,1.5\n7,8,\n").unwrap();
    assert!(jobs[0].job.is_none());
    assert_eq!(jobs[0].parse_error.as_deref(), Some("invalid value for 'width': 'abc'"));
    assert_eq!(jobs[0].raw_fields.len(), 3);
    assert_eq!(jobs[1].parse_error.as_deref(), Some("invalid value for 'qty': '1.5'"));
    let third = jobs[2].job.as_ref().unwrap();
    assert_eq!(third.qty, None);
    assert_eq!(jobs[2].raw_fields.len(), 2);
}

#[test]
fn csv_reader_errors_fail_the_file() {
    match parse_csv_batch_jobs(b"width,length\n1,2\n3,4,5\n") {
        Err(m) => assert!(m.starts_with("failed to read CSV row 2: "), "{m}"),
        Ok(_) => panic!("expected an error"),
    }
}

#[test]
fn export_fields_fall_back_to_raw_text() {
    let raw = vec![("qty".to_string(), "x".to_string()), ("gauge".to_string(), "16".to_string())];
    assert_eq!(opt_i32_or_raw(Some(-3), &raw, "qty"), "-3");
    assert_eq!(opt_i32_or_raw(None, &raw, "qty"), "x");
    assert_eq!(opt_i32_or_raw(None, &raw, "width"), "");
    assert_eq!(opt_string_or_raw(Some(&"18".to_string()), &raw, "gauge"), "18");
    assert_eq!(opt_string_or_raw(None, &raw, "gauge"), "16");
    assert_eq!(opt_string_or_raw(None, &raw, "table"), "");
    let dup = vec![("a".to_string(), "1".to_string()), ("a".to_string(), "2".to_string())];
    assert_eq!(opt_string_or_raw(None, &dup, "a"), "2");
}

fn fields() -> SheetJobFields {
    SheetJobFields {
        has_width: true,
        has_length: true,
        has_psf: false,
        gauge: None,
        table: None,
        has_thickness: false,
    }
}

#[test]
fn batch_sheet_plans() {
    let plan = plan_batch_sheet(&fields(), "hr/hrpo/cr", "16").unwrap();
    assert_eq!(plan.table, "HR/HRPO/CR");
    assert!(matches!(plan.source, SheetSource::Gauge { ref key } if key == "16"));
    let f = SheetJobFields { gauge: Some("18".to_string()), table: Some("stainless".to_string()), ..fields() };
    let plan = plan_batch_sheet(&f, "HR/HRPO/CR", "16").unwrap();
    assert_eq!(plan.table, "STAINLESS");
    assert!(matches!(plan.source, SheetSource::Gauge { ref key } if key == "18"));
    let f = SheetJobFields { has_psf: true, ..fields() };
    assert!(matches!(plan_batch_sheet(&f, "HR/HRPO/CR", "16").unwrap().source, SheetSource::Psf));
    let f = SheetJobFields { has_thickness: true, ..fields() };
    assert!(matches!(plan_batch_sheet(&f, "HR/HRPO/CR", "16").unwrap().source, SheetSource::Thickness));

    let err = |f: SheetJobFields| match plan_batch_sheet(&f, "HR/HRPO/CR", "16") {
        Err(m) => m,
        Ok(_) => panic!("expected an error"),
    };
    assert_eq!(err(SheetJobFields { has_width: false, ..fields() }), "width is required");
    assert_eq!(err(SheetJobFields { has_length: false, ..fields() }), "length is required");
    assert_eq!(
        err(SheetJobFields { has_psf: true, has_thickness: true, ..fields() }),
        "only one of gauge, psf, or thickness may be set per batch row"
    );
}

#[test]
fn coil_scrap_and_option_errors() {
    assert_eq!(coil_job_error(true, false, false, false).as_deref(), Some("coil_thickness is required"));
    assert_eq!(coil_job_error(true, true, true, true), None);
    assert_eq!(scrap_job_error(true, true, false, true).as_deref(), Some("base_cost is required"));
    assert_eq!(scrap_job_error(true, true, true, true), None);
    assert_eq!(
        batch_options_error(false, true, BatchJobType::Coil).as_deref(),
        Some("--json is required when using --input-file")
    );
    assert_eq!(
        batch_options_error(true, true, BatchJobType::Coil).as_deref(),
        Some("--output-file is currently supported only for sheet batch files")
    );
    assert_eq!(batch_options_error(true, true, BatchJobType::Sheet), None);
}

#[test]
fn partition_rows_reports_every_row_once_in_order() {
    let rows: Vec<(usize, Result<&str, String>)> = vec![
        (1, Ok("a")),
        (2, Err("bad width".to_string())),
        (3, Ok("b")),
        (4, Err("bad gauge".to_string())),
        (5, Ok("c")),
    ];
    let (results, errors) = partition_rows(rows);
    assert_eq!(results, vec![(1, "a"), (3, "b"), (5, "c")]);
    assert_eq!(errors, vec![(2, "bad width".to_string()), (4, "bad gauge".to_string())]);
    let (results, errors) = partition_rows::<u8>(Vec::new());
    assert!(results.is_empty() && errors.is_empty());
}

#[test]
fn csv_extension_ignores_ascii_case() {
    assert!(is_csv_extension("csv"));
    assert!(is_csv_extension("CSV"));
    assert!(is_csv_extension("Csv"));
    assert!(!is_csv_extension("json"));
    assert!(!is_csv_extension("csvx"));
    assert!(!is_csv_extension(""));
}

#[test]
fn csv_jobs_from_reader_records() {
    let read = CsvRecords {
        headers: Ok(vec!["Width".to_string(), "length".to_string()]),
        records: vec![Ok(vec!["48".to_string(), "96".to_string()]), Ok(vec!["x".to_string(), "96".to_string()])],
    };
    let jobs = csv_jobs_from_records(&read).unwrap();
    assert_eq!(jobs.len(), 2);
    assert!(jobs[0].parse_error.is_none() && jobs[0].job.is_some());
    assert_eq!(jobs[1].row_index, 1);
    assert!(jobs[1].parse_error.is_some() && jobs[1].job.is_none());

    let read = CsvRecords { headers: Err("boom".to_string()), records: Vec::new() };
    assert_eq!(csv_jobs_from_records(&read).unwrap_err(), "failed to read CSV headers: boom");
    let read = CsvRecords {
        headers: Ok(vec!["width".to_string()]),
        records: Vec::new(),
    };
    assert_eq!(csv_jobs_from_records(&read).unwrap_err(), "missing required CSV header 'length'");
    let read = CsvRecords {
        headers: Ok(vec!["width".to_string(), "length".to_string()]),
        records: vec![Ok(vec!["1".to_string(), "2".to_string()]), Err("bad row".to_string())],
    };
    assert_eq!(csv_jobs_from_records(&read).unwrap_err(), "failed to read CSV row 2: bad row");
}
