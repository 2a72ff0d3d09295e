use steelcal::calendar::format_timestamp;
use steelcal::history::{
    build_filtered_history, build_preview_text, export_to_text, json_str, FieldValue, HistoryEntry,
    HistoryEntryType, Payload, SessionHistory,
};

/// A payload for a JSON document, as the application builds one.
fn payload(text: &str) -> Payload {
    let value: serde_json::Value = serde_json::from_str(text).unwrap();
    let fields = match &value {
        serde_json::Value::Object(map) => Some(
            map.iter()
                .map(|(k, v)| {
                    let f = match v {
                        serde_json::Value::Null => FieldValue::Null,
                        serde_json::Value::String(s) => FieldValue::Text(s.clone()),
                        other => FieldValue::Other(other.to_string()),
                    };
                    (k.clone(), f)
                })
                .collect(),
        ),
        _ => None,
    };
    Payload { json: value.to_string(), fields }
}

fn entry(ts: u64, t: HistoryEntryType, inputs: &str, outputs: &str) -> HistoryEntry {
    HistoryEntry::with_timestamp(ts, t, payload(inputs), payload(outputs))
}

#[test]
fn entry_type_display() {
    assert_eq!(HistoryEntryType::Sheet.to_string(), "Sheet");
    assert_eq!(HistoryEntryType::Coil.to_string(), "Coil");
    assert_eq!(HistoryEntryType::Scrap.to_string(), "Scrap");
    assert_eq!(HistoryEntryType::Pricing.to_string(), "Pricing");
}

#[test]
fn format_timestamp_epoch() {
    let (date, time) = format_timestamp(0);
    assert_eq!(date, "1970-01-01");
    assert_eq!(time, "00:00:00");
}

#[test]
fn format_timestamp_known_date() {
    let (date, time) = format_timestamp(1_700_000_000);
    assert_eq!(date, "2023-11-14");
    assert_eq!(time, "22:13:20");
}

#[test]
fn format_timestamp_leap_year() {
    let (date, time) = format_timestamp(1_709_164_800);
    assert_eq!(date, "2024-02-29");
    assert_eq!(time, "00:00:00");
}

#[test]
fn format_timestamp_end_of_year() {
    let (date, time) = format_timestamp(1_704_067_199);
    assert_eq!(date, "2023-12-31");
    assert_eq!(time, "23:59:59");
}

#[test]
fn format_timestamp_century_rules() {
    // 2000-02-29 exists (divisible by 400); 2100-03-01 follows 2100-02-28.
    assert_eq!(format_timestamp(951_782_400).0, "2000-02-29");
    assert_eq!(format_timestamp(4_107_542_400).0, "2100-03-01");
    assert_eq!(format_timestamp(4_107_542_399).0, "2100-02-28");
}

#[test]
fn history_entry_with_explicit_timestamp() {
    let e = entry(1_700_000_000, HistoryEntryType::Coil, r#"{"width": 48}"#, r#"{"footage": 200.0}"#);
    assert_eq!(e.timestamp, 1_700_000_000);
    assert_eq!(e.entry_type, HistoryEntryType::Coil);
}

#[test]
fn session_history_add_and_get() {
    let mut history = SessionHistory::new();
    assert!(history.get_entries().is_empty());
    history.add_entry(entry(100, HistoryEntryType::Sheet, "{}", "{}"));
    history.add_entry(entry(200, HistoryEntryType::Coil, "{}", "{}"));
    assert_eq!(history.get_entries().len(), 2);
    assert_eq!(history.get_entries()[0].timestamp, 100);
    assert_eq!(history.get_entries()[1].timestamp, 200);
}

#[test]
fn session_history_filter_by_type() {
    let mut history = SessionHistory::new();
    history.add_entry(entry(1, HistoryEntryType::Sheet, "{}", "{}"));
    history.add_entry(entry(2, HistoryEntryType::Coil, "{}", "{}"));
    history.add_entry(entry(3, HistoryEntryType::Sheet, "{}", "{}"));
    history.add_entry(entry(4, HistoryEntryType::Scrap, "{}", "{}"));
    history.add_entry(entry(5, HistoryEntryType::Pricing, "{}", "{}"));

    let sheets = history.filter_by_type(HistoryEntryType::Sheet);
    assert_eq!(sheets.len(), 2);
    assert_eq!(sheets[0].timestamp, 1);
    assert_eq!(sheets[1].timestamp, 3);
    assert_eq!(history.filter_by_type(HistoryEntryType::Coil).len(), 1);
    assert_eq!(history.filter_by_type(HistoryEntryType::Scrap).len(), 1);
    assert_eq!(history.filter_by_type(HistoryEntryType::Pricing).len(), 1);
}

#[test]
fn session_history_filter_empty_result() {
    let mut history = SessionHistory::new();
    history.add_entry(entry(1, HistoryEntryType::Sheet, "{}", "{}"));
    assert!(history.filter_by_type(HistoryEntryType::Coil).is_empty());
}

#[test]
fn session_history_clear() {
    let mut history = SessionHistory::new();
    history.add_entry(entry(1, HistoryEntryType::Sheet, "{}", "{}"));
    history.add_entry(entry(2, HistoryEntryType::Coil, "{}", "{}"));
    assert_eq!(history.get_entries().len(), 2);
    history.clear();
    assert!(history.get_entries().is_empty());
}

#[test]
fn adding_an_entry_extends_only_its_own_type() {
    let mut history = SessionHistory::new();
    history.add_entry(entry(1, HistoryEntryType::Sheet, "{}", "{}"));
    let coils_before = history.filter_by_type(HistoryEntryType::Coil).len();
    let sheets_before = history.filter_by_type(HistoryEntryType::Sheet).len();
    history.add_entry(entry(2, HistoryEntryType::Coil, "{}", "{}"));
    assert_eq!(history.filter_by_type(HistoryEntryType::Coil).len(), coils_before + 1);
    assert_eq!(history.filter_by_type(HistoryEntryType::Sheet).len(), sheets_before);
    assert_eq!(history.filter_by_type(HistoryEntryType::Coil)[0].timestamp, 2);
}

#[test]
fn export_to_text_empty() {
    let output = export_to_text(&[]);
    assert!(output.starts_with("SteelCal History Export v"));
    assert!(output.contains("(no entries)"));
    assert_eq!(
        output,
        "SteelCal History Export v0.1.2\n========================================\n(no entries)\n"
    );
}

#[test]
fn export_to_text_version_header() {
    let output = export_to_text(&[]);
    let first_line = output.lines().next().unwrap();
    assert!(first_line.starts_with("SteelCal History Export v"));
    assert!(first_line.contains("0.1.2"));
}

#[test]
fn export_to_text_snapshot_single_entry() {
    let entries = vec![entry(
        1_700_000_000,
        HistoryEntryType::Sheet,
        r#"{"width": 48, "length": 120, "qty": 10, "gauge": "16"}"#,
        r#"{"each_lb": 100.0, "total_lb": 1000.0, "psf": 2.5}"#,
    )];
    let output = export_to_text(&entries);
    let expected = "SteelCal History Export v0.1.2\n\
========================================\n\
Entry #1\n\
Timestamp: 2023-11-14 22:13:20\n\
Type:      Sheet\n\
Inputs:    {\"gauge\":\"16\",\"length\":120,\"qty\":10,\"width\":48}\n\
Outputs:   {\"each_lb\":100.0,\"psf\":2.5,\"total_lb\":1000.0}\n";
    assert_eq!(output, expected);
}

#[test]
fn export_to_text_snapshot_multiple_entries() {
    let entries = vec![
        entry(1_700_000_000, HistoryEntryType::Sheet, r#"{"width": 48}"#, r#"{"each_lb": 80.0}"#),
        entry(
            1_700_000_060,
            HistoryEntryType::Coil,
            r#"{"width": 48, "thickness": 0.06}"#,
            r#"{"footage": 204.08}"#,
        ),
        entry(
            1_700_000_120,
            HistoryEntryType::Scrap,
            r#"{"actual": 5000, "ending": 4800}"#,
            r#"{"scrap_lb": 200.0}"#,
        ),
        entry(
            1_700_000_180,
            HistoryEntryType::Pricing,
            r#"{"mode": "per lb", "price": 1.0}"#,
            r#"{"total_after_tax": 88.0}"#,
        ),
    ];
    let output = export_to_text(&entries);
    let expected = "SteelCal History Export v0.1.2\n\
========================================\n\
Entry #1\n\
Timestamp: 2023-11-14 22:13:20\n\
Type:      Sheet\n\
Inputs:    {\"width\":48}\n\
Outputs:   {\"each_lb\":80.0}\n\
----------------------------------------\n\
Entry #2\n\
Timestamp: 2023-11-14 22:14:20\n\
Type:      Coil\n\
Inputs:    {\"thickness\":0.06,\"width\":48}\n\
Outputs:   {\"footage\":204.08}\n\
----------------------------------------\n\
Entry #3\n\
Timestamp: 2023-11-14 22:15:20\n\
Type:      Scrap\n\
Inputs:    {\"actual\":5000,\"ending\":4800}\n\
Outputs:   {\"scrap_lb\":200.0}\n\
----------------------------------------\n\
Entry #4\n\
Timestamp: 2023-11-14 22:16:20\n\
Type:      Pricing\n\
Inputs:    {\"mode\":\"per lb\",\"price\":1.0}\n\
Outputs:   {\"total_after_tax\":88.0}\n";
    assert_eq!(output, expected);
}

#[test]
fn filtered_history_by_type_and_search() {
    let mut history = SessionHistory::new();
    history.add_entry(entry(1_700_000_000, HistoryEntryType::Sheet, r#"{"gauge": "16"}"#, "{}"));
    history.add_entry(entry(1_700_000_060, HistoryEntryType::Coil, r#"{"width": 48}"#, "{}"));
    history.add_entry(entry(1_700_000_120, HistoryEntryType::Sheet, r#"{"gauge": "18"}"#, "{}"));

    let (all, labels) = build_filtered_history(&history, 0, "");
    assert_eq!(all, vec![0, 1, 2]);
    assert_eq!(labels[0], "2023-11-14 22:13:20 - Sheet Calculation");
    assert_eq!(labels[1], "2023-11-14 22:14:20 - Coil Calculation");

    let (sheets, _) = build_filtered_history(&history, 1, "");
    assert_eq!(sheets, vec![0, 2]);
    let (coils, _) = build_filtered_history(&history, 2, "");
    assert_eq!(coils, vec![1]);
    let (scraps, _) = build_filtered_history(&history, 3, "");
    assert!(scraps.is_empty());

    // The search ignores case and surrounding spaces, and looks in the
    // label and in the inputs and outputs.
    let (coil_search, _) = build_filtered_history(&history, 0, "  COIL ");
    assert_eq!(coil_search, vec![1]);
    let (gauge_search, gauge_labels) = build_filtered_history(&history, 0, "\"18\"");
    assert_eq!(gauge_search, vec![2]);
    assert_eq!(gauge_labels, vec!["2023-11-14 22:15:20 - Sheet Calculation".to_string()]);
    let (none, _) = build_filtered_history(&history, 2, "gauge");
    assert!(none.is_empty());
}

#[test]
fn preview_text_lists_fields() {
    let e = entry(
        1_700_000_000,
        HistoryEntryType::Sheet,
        r#"{"width": 48, "gauge": "16", "note": null}"#,
        r#"[1, 2]"#,
    );
    let preview = build_preview_text(&e);
    assert_eq!(
        preview,
        "Type: Sheet\nTimestamp: 2023-11-14 22:13:20\n\n--- Inputs ---\n  gauge: 16\n  note: null\n  width: 48\n\n--- Outputs ---\n  [1,2]\n"
    );
}

#[test]
fn json_str_reads_fields() {
    let p = payload(r#"{"width": "48", "qty": 3, "flag": true, "note": null}"#);
    assert_eq!(json_str(&p, "width"), "48");
    assert_eq!(json_str(&p, "qty"), "3");
    assert_eq!(json_str(&p, "flag"), "true");
    assert_eq!(json_str(&p, "note"), "");
    assert_eq!(json_str(&p, "missing"), "");
    assert_eq!(json_str(&payload("[1]"), "width"), "");
}
