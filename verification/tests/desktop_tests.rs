use steelcal::catalog::builtin_gauge_tables;
use steelcal::desktop::{
    clear_coil, clear_sheet, config_editor_open_text, config_editor_save_text, open_config_editor,
    validate_config_editor, CoilPanel, SheetPanel,
    build_initial_models, clear_scrap, copy_to_actual, copy_to_ending, gauge_keys_for_table,
    open_about, open_help, open_history, refresh_history_filter, restore_config_defaults,
    revert_config_editor, select_history_entry, table_names_from, ConfigEditor, Dialogs,
    HistoryDialog, ScrapPanel,
};
use steelcal::history::{HistoryEntry, HistoryEntryType, Payload, SessionHistory};

fn dialogs() -> Dialogs {
    Dialogs { show_help: false, show_about: true, show_config_editor: true, show_history: true }
}

#[test]
fn help_and_about_show_one_dialog() {
    let mut d = dialogs();
    open_help(&mut d);
    assert_eq!(d, Dialogs { show_help: true, show_about: false, show_config_editor: false, show_history: false });
    open_about(&mut d);
    assert_eq!(d, Dialogs { show_help: false, show_about: true, show_config_editor: false, show_history: false });
}

#[test]
fn config_editor_revert_and_restore() {
    let mut e = ConfigEditor { text: "edited".to_string(), status: "x".to_string(), status_is_error: true };
    revert_config_editor(&mut e, &"{\"a\": 1}".to_string());
    assert_eq!(e.text, "{\"a\": 1}");
    assert_eq!(e.status, "Reverted to last saved content");
    assert!(!e.status_is_error);
    e.status_is_error = true;
    restore_config_defaults(&mut e);
    assert!(e.text.contains("\"density_lb_ft3\": 490.0"));
    assert_eq!(e.status, "Defaults restored (not saved yet - click Save to apply)");
    assert!(!e.status_is_error);
}

fn panel() -> ScrapPanel {
    let s = |t: &str| t.to_string();
    ScrapPanel {
        actual_weight_text: s("1"),
        ending_weight_text: s("2"),
        base_cost_text: s("3"),
        processing_cost_text: s("4"),
        result_scrap_lb: s("5"),
        result_total_cost: s("6"),
        result_price_per_lb: s("7"),
        result_scrap_charge_per_lb: s("8"),
        result_is_pickup: s("Yes"),
        error_message: s("err"),
    }
}

#[test]
fn scrap_panel_clear_and_copy() {
    let mut p = panel();
    copy_to_actual(&mut p, &"80.000".to_string());
    assert_eq!(p.actual_weight_text, "80.000");
    assert_eq!(p.ending_weight_text, "2");
    copy_to_ending(&mut p, &"79.5".to_string());
    assert_eq!(p.ending_weight_text, "79.5");
    assert_eq!(p.actual_weight_text, "80.000");
    clear_scrap(&mut p);
    assert_eq!(p.base_cost_text, "0.00");
    assert_eq!(p.processing_cost_text, "0.00");
    for field in [
        &p.actual_weight_text,
        &p.ending_weight_text,
        &p.result_scrap_lb,
        &p.result_total_cost,
        &p.result_price_per_lb,
        &p.result_scrap_charge_per_lb,
        &p.result_is_pickup,
        &p.error_message,
    ] {
        assert!(field.is_empty());
    }
}

fn payload(json: &str) -> Payload {
    Payload { json: json.to_string(), fields: None }
}

#[test]
fn history_dialog_lists_and_previews() {
    let mut history = SessionHistory::new();
    history.add_entry(HistoryEntry::with_timestamp(0, HistoryEntryType::Sheet, payload("{}"), payload("{}")));
    history.add_entry(HistoryEntry::with_timestamp(60, HistoryEntryType::Scrap, payload("{}"), payload("{}")));
    let mut d = dialogs();
    let mut h = HistoryDialog {
        filter_type_index: 3,
        search_text: "zz".to_string(),
        status_text: "old".to_string(),
        status_is_error: true,
        filtered: vec![],
        labels: vec![],
        selected_index: 4,
        preview_text: "p".to_string(),
    };
    open_history(&mut d, &mut h, &history);
    assert!(d.show_history && !d.show_help && !d.show_about && !d.show_config_editor);
    assert_eq!(h.filtered, vec![0, 1]);
    assert_eq!(h.labels[1], "1970-01-01 00:01:00 - Scrap Calculation");
    assert_eq!(h.selected_index, -1);
    assert!(h.status_text.is_empty() && !h.status_is_error);

    h.filter_type_index = 3;
    refresh_history_filter(&mut h, &history);
    assert_eq!(h.filtered, vec![1]);

    select_history_entry(&mut h, &history, 0);
    assert!(h.preview_text.starts_with("Type: Scrap\nTimestamp: 1970-01-01 00:01:00"));
    select_history_entry(&mut h, &history, 3);
    assert!(h.preview_text.is_empty());
}

#[test]
fn initial_models_select_defaults() {
    let tables = builtin_gauge_tables();
    let names = table_names_from(&tables);
    assert_eq!(names.len(), 7);
    assert_eq!(gauge_keys_for_table(&tables, "STAINLESS")[0], "12");
    assert!(gauge_keys_for_table(&tables, "stainless").is_empty());
    let m = build_initial_models(&tables, "hr/hrpo/cr", "16");
    assert_eq!(m.table_names[m.default_table_idx as usize], "HR/HRPO/CR");
    assert_eq!(m.initial_gauges.len(), 51);
    assert_eq!(m.initial_gauges[m.default_gauge_idx as usize], "16");
    let m = build_initial_models(&tables, "missing", "zz");
    assert_eq!(m.default_table_idx, 0);
    assert_eq!(m.initial_gauges[0], "12");
    assert_eq!(m.default_gauge_idx, 0);
}

fn filled(text: &str) -> String {
    text.to_string()
}

fn sheet_panel() -> SheetPanel {
    SheetPanel {
        width_text: filled("48"),
        length_text: filled("96"),
        qty_text: filled("5"),
        calc_mode: 2,
        psf_text: filled("2.5"),
        thickness_text: filled("0.06"),
        table_names: vec![filled("X")],
        selected_table_index: 3,
        gauge_keys: vec![filled("Y")],
        selected_gauge_index: 7,
        gauge_text: filled("14"),
        result_each_lb: filled("80"),
        result_total_lb: filled("400"),
        result_psf: filled("2.5"),
        result_area_each: filled("32"),
        result_area_total: filled("160"),
        error_message: filled("err"),
        price_mode_index: 2,
        price_value_text: filled("1.25"),
        markup_text: filled("10"),
        tax_text: filled("8"),
        setup_fee_text: filled("25"),
        minimum_order_text: filled("100"),
        cost_each_before_tax: filled("1"),
        cost_each_after_tax: filled("2"),
        cost_total_before_tax: filled("3"),
        cost_total_after_tax: filled("4"),
        cost_minimum_applied: filled("yes"),
        pricing_error_message: filled("bad"),
    }
}

#[test]
fn clear_sheet_resets_fields_and_pricing_to_defaults() {
    let tables = builtin_gauge_tables();
    let mut p = sheet_panel();
    clear_sheet(&mut p, &tables, "stainless", "16");
    for field in [&p.width_text, &p.length_text, &p.psf_text, &p.thickness_text] {
        assert!(field.is_empty());
    }
    assert_eq!(p.qty_text, "1");
    assert_eq!(p.calc_mode, 0);
    assert_eq!(p.table_names, table_names_from(&tables));
    assert_eq!(p.table_names[p.selected_table_index as usize], "STAINLESS");
    assert_eq!(p.gauge_keys, gauge_keys_for_table(&tables, "STAINLESS"));
    assert_eq!(p.gauge_keys[p.selected_gauge_index as usize], "16");
    assert_eq!(p.gauge_text, "16");
    for field in [
        &p.result_each_lb,
        &p.result_total_lb,
        &p.result_psf,
        &p.result_area_each,
        &p.result_area_total,
        &p.error_message,
        &p.cost_each_before_tax,
        &p.cost_each_after_tax,
        &p.cost_total_before_tax,
        &p.cost_total_after_tax,
        &p.cost_minimum_applied,
        &p.pricing_error_message,
    ] {
        assert!(field.is_empty());
    }
    assert_eq!(p.price_mode_index, 0);
    assert_eq!(p.price_value_text, "0.00");
    assert_eq!(p.markup_text, "0");
    assert_eq!(p.tax_text, "0");
    assert_eq!(p.setup_fee_text, "0.00");
    assert_eq!(p.minimum_order_text, "0.00");

    // An unknown default table selects the first table.
    clear_sheet(&mut p, &tables, "no such table", "16");
    assert_eq!(p.selected_table_index, 0);
    assert_eq!(p.gauge_keys, gauge_keys_for_table(&tables, &p.table_names[0]));
}

#[test]
fn clear_coil_resets_fields_to_defaults() {
    let mut p = CoilPanel {
        width_text: filled("48"),
        thickness_text: filled("0.06"),
        id_text: filled("24"),
        weight_text: filled("2000"),
        density_text: filled("500"),
        result_footage: filled("1"),
        result_piw: filled("2"),
        result_od: filled("3"),
        error_message: filled("bad"),
    };
    clear_coil(&mut p, "490");
    assert_eq!(p.id_text, "20");
    assert_eq!(p.density_text, "490");
    for field in [
        &p.width_text,
        &p.thickness_text,
        &p.weight_text,
        &p.result_footage,
        &p.result_piw,
        &p.result_od,
        &p.error_message,
    ] {
        assert!(field.is_empty());
    }
}

#[test]
fn config_editor_validate_reports_json_errors() {
    let mut e = ConfigEditor { text: filled("{\"a\": 1}"), status: filled("old"), status_is_error: true };
    validate_config_editor(&mut e);
    assert_eq!(e.text, "{\"a\": 1}");
    assert_eq!(e.status, "✓ Valid JSON");
    assert!(!e.status_is_error);
    let bad = "{invalid";
    let message = serde_json::from_str::<serde_json::Value>(bad).unwrap_err().to_string();
    let mut e = ConfigEditor { text: filled(bad), status: filled(""), status_is_error: false };
    validate_config_editor(&mut e);
    assert_eq!(e.text, bad);
    assert_eq!(e.status, format!("✗ Invalid JSON: {message}"));
    assert!(e.status_is_error);
}

#[test]
fn config_editor_save_and_open_pretty_print() {
    assert_eq!(
        config_editor_save_text("{\"b\":2,\"a\":[1,2]}").unwrap(),
        "{\n  \"a\": [\n    1,\n    2\n  ],\n  \"b\": 2\n}"
    );
    let bad = "{\"a\": }";
    let message = serde_json::from_str::<serde_json::Value>(bad).unwrap_err().to_string();
    assert_eq!(config_editor_save_text(bad), Err(format!("✗ Cannot save: invalid JSON — {message}")));
    assert_eq!(config_editor_open_text("{\"a\":1}"), "{\n  \"a\": 1\n}");
    assert_eq!(config_editor_open_text("not json"), "not json");

    let mut e = ConfigEditor { text: filled(""), status: filled("x"), status_is_error: true };
    let mut d = Dialogs { show_help: true, show_about: true, show_config_editor: false, show_history: true };
    let original = open_config_editor(&mut e, &mut d, "{\"a\":1}");
    assert_eq!(original, "{\n  \"a\": 1\n}");
    assert_eq!(e.text, original);
    assert!(e.status.is_empty() && !e.status_is_error);
    assert_eq!(d, Dialogs { show_help: false, show_about: false, show_config_editor: true, show_history: false });
}
