use steelcal::catalog::builtin_gauge_tables;
use steelcal::desktop::{
    chosen_gauge_key, recall_coil_entry, recall_history_target, recall_scrap_entry,
    recall_sheet_entry, sheet_history_fields, RecallTarget, SheetHistoryForm,
};
use steelcal::history::{
    entries_at, export_status, FieldValue, HistoryEntry, HistoryEntryType, Payload, SessionHistory,
};

fn payload(text: &str) -> Payload {
    let value: serde_json::Value = serde_json::from_str(text).unwrap();
    let fields = value.as_object().map(|map| {
        map.iter()
            .map(|(k, v)| {
                let f = match v {
                    serde_json::Value::Null => FieldValue::Null,
                    serde_json::Value::String(s) => FieldValue::Text(s.clone()),
                    other => FieldValue::Other(other.to_string()),
                };
                (k.clone(), f)
            })
            .collect()
    });
    Payload { json: value.to_string(), fields }
}

fn strings(items: &[&str]) -> Vec<String> {
    items.iter().map(|s| s.to_string()).collect()
}

#[test]
fn sheet_history_inputs_preserve_typed_gauge_and_include_pricing_fields() {
    let tables = strings(&["Galv"]);
    let keys = strings(&["16", "18"]);
    let form = SheetHistoryForm {
        calc_mode: 0,
        table_names: &tables,
        gauge_keys: &keys,
        selected_table_index: 0,
        gauge_text: "18",
        selected_gauge_index: 0,
        psf_text: "",
        thickness_text: "",
        price_mode_index: 2,
        price_value_text: "125.50",
        markup_text: "12",
        tax_text: "8.5",
        setup_fee_text: "15",
        minimum_order_text: "250",
    };
    let fields = sheet_history_fields(&form);
    let get = |k: &str| fields.iter().find(|(key, _)| key == k).map(|(_, v)| v.as_str());
    assert_eq!(get("table"), Some("Galv"));
    assert_eq!(get("gauge"), Some("18"));
    assert_eq!(get("input_mode"), Some("gauge"));
    assert_eq!(get("price_mode"), Some("per_sheet"));
    assert_eq!(get("price_value"), Some("125.50"));
    assert_eq!(get("markup"), Some("12"));
    assert_eq!(get("tax"), Some("8.5"));
    assert_eq!(get("setup_fee"), Some("15"));
    assert_eq!(get("minimum_order"), Some("250"));
}

#[test]
fn sheet_history_fields_other_modes() {
    let none: Vec<String> = Vec::new();
    let base = SheetHistoryForm {
        calc_mode: 1,
        table_names: &none,
        gauge_keys: &none,
        selected_table_index: -1,
        gauge_text: "",
        selected_gauge_index: -1,
        psf_text: "2.5",
        thickness_text: "0.25",
        price_mode_index: 7,
        price_value_text: "",
        markup_text: "",
        tax_text: "",
        setup_fee_text: "",
        minimum_order_text: "",
    };
    let f = sheet_history_fields(&base);
    assert_eq!(f[0], ("psf".to_string(), "2.5".to_string()));
    assert_eq!(f[1], ("input_mode".to_string(), "psf".to_string()));
    assert_eq!(f[2], ("price_mode".to_string(), "unknown".to_string()));
    let f = sheet_history_fields(&SheetHistoryForm { calc_mode: 2, ..base });
    assert_eq!(f[0], ("thickness".to_string(), "0.25".to_string()));
    let f = sheet_history_fields(&SheetHistoryForm { calc_mode: 9, ..base });
    assert_eq!(f.len(), 6);
}

#[test]
fn chosen_gauge_prefers_match_then_selection_then_text() {
    let keys = strings(&["10", "16", "18"]);
    assert_eq!(chosen_gauge_key(&keys, "18", 0), "18");
    assert_eq!(chosen_gauge_key(&keys, "", 1), "16");
    assert_eq!(chosen_gauge_key(&keys, "", 9), "");
    assert_eq!(chosen_gauge_key(&keys, "zzz", -1), "zzz");
}

#[test]
fn recall_sheet_entry_restores_fields() {
    let tables = builtin_gauge_tables();
    let names = tables.keys();
    let inputs = payload(
        r#"{"width": 48.0, "length": "96", "qty": 3, "input_mode": "gauge", "table": "stainless", "gauge": "18", "price_mode": "per_ft2", "price_value": "1.5", "markup": null}"#,
    );
    let r = recall_sheet_entry(&inputs, &names, Some(&tables), &[]);
    assert_eq!(r.width_text, "48.0");
    assert_eq!(r.length_text, "96");
    assert_eq!(r.qty_text, "3");
    assert_eq!(r.calc_mode, 0);
    assert_eq!(names[r.table_index.unwrap() as usize], "STAINLESS");
    let keys = r.gauge_keys.unwrap();
    assert_eq!(keys[r.gauge_index.unwrap() as usize], "18");
    assert_eq!(r.gauge_text.as_deref(), Some("18"));
    assert_eq!(r.price_mode_index, 1);
    assert_eq!(r.price_value_text, "1.5");
    assert_eq!(r.markup_text, "");
    assert_eq!(r.tax_text, "");

    let shown = strings(&["7", "18"]);
    let r = recall_sheet_entry(&inputs, &names, None, &shown);
    assert!(r.gauge_keys.is_none());
    assert_eq!(r.gauge_index, Some(1));

    let r = recall_sheet_entry(&payload(r#"{"input_mode": "psf", "psf": "2.5"}"#), &names, None, &[]);
    assert_eq!(r.calc_mode, 1);
    assert_eq!(r.psf_text.as_deref(), Some("2.5"));
    assert!(r.table_index.is_none());
    let r = recall_sheet_entry(&payload(r#"{"input_mode": "odd"}"#), &names, None, &[]);
    assert_eq!(r.calc_mode, 0);
    assert!(r.table_index.is_none() && r.gauge_text.is_none());
    assert_eq!(r.price_mode_index, 0);
}

#[test]
fn recall_coil_and_scrap_entries() {
    let c = recall_coil_entry(&payload(r#"{"width": "48", "thickness": 0.06, "id": "20", "weight": "5000", "density": ""}"#));
    assert_eq!(c.width_text, "48");
    assert_eq!(c.thickness_text, "0.06");
    assert!(c.density_text.is_none());
    let c = recall_coil_entry(&payload(r#"{"density": "501"}"#));
    assert_eq!(c.density_text.as_deref(), Some("501"));
    assert_eq!(c.width_text, "");
    let s = recall_scrap_entry(&payload(r#"{"actual_weight": "5000", "ending_weight": "4800", "base_cost": 1, "processing_cost": true}"#));
    assert_eq!(s.actual_weight_text, "5000");
    assert_eq!(s.base_cost_text, "1");
    assert_eq!(s.processing_cost_text, "true");
}

#[test]
fn recall_targets() {
    let mut history = SessionHistory::new();
    history.add_entry(HistoryEntry::with_timestamp(1, HistoryEntryType::Coil, payload("{}"), payload("{}")));
    history.add_entry(HistoryEntry::with_timestamp(2, HistoryEntryType::Pricing, payload("{}"), payload("{}")));
    let status = |t: RecallTarget| match t {
        RecallTarget::Refused { status } => status,
        RecallTarget::Recall { .. } => panic!("expected a refusal"),
    };
    assert_eq!(status(recall_history_target(-1, &[0], &history)), "No entry selected.");
    assert_eq!(status(recall_history_target(1, &[0], &history)), "Invalid selection.");
    assert_eq!(status(recall_history_target(0, &[5], &history)), "Entry not found.");
    match recall_history_target(0, &[0, 1], &history) {
        RecallTarget::Recall { position, entry_type, tab_index } => {
            assert_eq!((position, entry_type, tab_index), (0, HistoryEntryType::Coil, 1));
        }
        _ => panic!("expected a recall"),
    }
    match recall_history_target(1, &[0, 1], &history) {
        RecallTarget::Recall { position, entry_type, tab_index } => {
            assert_eq!((position, entry_type, tab_index), (1, HistoryEntryType::Pricing, 0));
        }
        _ => panic!("expected a recall"),
    }
}

#[test]
fn history_entry_display_format() {
    let e = HistoryEntry::with_timestamp(
        1_700_000_000,
        HistoryEntryType::Sheet,
        payload(r#"{"width": 48, "length": 120}"#),
        payload(r#"{"each_lb": 80.0}"#),
    );
    let output = e.to_string();
    assert!(output.contains("[2023-11-14 22:13:20] Sheet"));
    assert_eq!(
        output,
        "[2023-11-14 22:13:20] Sheet\n  Inputs:  {\"length\":120,\"width\":48}\n  Outputs: {\"each_lb\":80.0}"
    );
}

#[test]
fn export_selection_and_status() {
    let mut history = SessionHistory::new();
    history.add_entry(HistoryEntry::with_timestamp(1, HistoryEntryType::Sheet, payload("{}"), payload("{}")));
    history.add_entry(HistoryEntry::with_timestamp(2, HistoryEntryType::Coil, payload("{}"), payload("{}")));
    let picked = entries_at(&history, &[1, 7, 0]);
    assert_eq!(picked.len(), 2);
    assert_eq!(picked[0].timestamp, 2);
    assert_eq!(picked[1].timestamp, 1);
    assert_eq!(export_status(2, "/tmp/x.txt"), "✓ Exported 2 entries to /tmp/x.txt");
}
